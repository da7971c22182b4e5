//! Reading an Azure OpenAI endpoint URL: its API version and deployment, and
//! how they combine with the profile's own settings.
use vstd::prelude::*;
use crate::text::{string_views, lit, str_chars, string_from_chars};

verus! {

/// The parts of a parsed URL that the endpoint logic reads: the URL without
/// path, query and fragment, its decoded query pairs, and its path segments
/// (`None` for a URL that cannot have a path).
pub struct UrlParts {
    pub root: String,
    pub query_pairs: Vec<(String, String)>,
    pub path_segments: Option<Vec<String>>,
}

/// The views of query pairs.
pub open spec fn pair_views(v: Seq<(String, String)>) -> Seq<(Seq<char>, Seq<char>)> {
    v.map_values(|p: (String, String)| (p.0@, p.1@))
}

/// The value of the first pair whose key is `key`.
pub open spec fn first_value(pairs: Seq<(Seq<char>, Seq<char>)>, key: Seq<char>) -> Option<Seq<char>>
    decreases pairs.len(),
{
    if pairs.len() == 0 {
        None
    } else if pairs[0].0 == key {
        Some(pairs[0].1)
    } else {
        first_value(pairs.drop_first(), key)
    }
}

/// The first index of `x` in `s`, from `i` on.
pub open spec fn first_index(s: Seq<Seq<char>>, x: Seq<char>, i: int) -> Option<int>
    decreases s.len() - i,
{
    if i < 0 || i >= s.len() {
        None
    } else if s[i] == x {
        Some(i)
    } else {
        first_index(s, x, i + 1)
    }
}

/// The deployment named by path segments `.../deployments/{id}/...`: the
/// segment after the first `deployments`, when there is a non-empty one.
pub open spec fn deployment_in(segments: Option<Seq<Seq<char>>>) -> Option<Seq<char>> {
    match segments {
        None => None,
        Some(s) => match first_index(s, "deployments"@, 0) {
            Some(i) => if i + 1 < s.len() && s[i + 1].len() > 0 {
                Some(s[i + 1])
            } else {
                None
            },
            None => None,
        },
    }
}

/// The segments' views, if there are any.
pub open spec fn segment_views(segments: Option<Vec<String>>) -> Option<Seq<Seq<char>>> {
    match segments {
        Some(v) => Some(string_views(v@)),
        None => None,
    }
}

fn chars_eq(a: &Vec<char>, b: &Vec<char>) -> (r: bool)
    ensures
        r == (a@ == b@),
{
    if a.len() != b.len() {
        return false;
    }
    let mut i: usize = 0;
    while i < a.len()
        invariant
            a@.len() == b@.len(),
            i <= a@.len(),
            forall|k: int| 0 <= k < i ==> a@[k] == b@[k],
        decreases a.len() - i,
    {
        if a[i] != b[i] {
            return false;
        }
        i = i + 1;
    }
    assert(a@ =~= b@);
    true
}

fn copy_string(s: &String) -> (r: String)
    ensures
        r@ == s@,
{
    string_from_chars(&str_chars(s.as_str()))
}

/// The API version (the first `api-version` query value) and the deployment
/// (see `deployment_in`) of an endpoint URL.
pub fn parse_azure_endpoint(url: &UrlParts) -> (r: (Option<String>, Option<String>))
    ensures
        match first_value(pair_views(url.query_pairs@), "api-version"@) {
            Some(v) => r.0 matches Some(x) && x@ == v,
            None => r.0 is None,
        },
        match deployment_in(segment_views(url.path_segments)) {
            Some(d) => r.1 matches Some(x) && x@ == d,
            None => r.1 is None,
        },
{
    let key = lit("api-version");
    let ghost pairs = pair_views(url.query_pairs@);
    let ghost goal = first_value(pairs, "api-version"@);
    let mut api_version: Option<String> = None;
    let mut i: usize = 0;
    assert(pairs.skip(0) =~= pairs);
    while i < url.query_pairs.len() && api_version.is_none()
        invariant
            key@ == "api-version"@,
            pairs == pair_views(url.query_pairs@),
            goal == first_value(pairs, key@),
            i <= url.query_pairs@.len(),
            api_version is None ==> first_value(pairs.skip(i as int), key@) == goal,
            api_version matches Some(x) ==> goal == Some(x@),
        decreases url.query_pairs.len() - i,
    {
        let pk = str_chars(url.query_pairs[i].0.as_str());
        assert(pairs.skip(i as int)[0] == pairs[i as int]);
        assert(pairs.skip(i as int).drop_first() =~= pairs.skip(i + 1));
        if chars_eq(&pk, &key) {
            api_version = Some(copy_string(&url.query_pairs[i].1));
        }
        i = i + 1;
    }
    proof {
        if api_version.is_none() {
            assert(pairs.skip(i as int) =~= Seq::<(Seq<char>, Seq<char>)>::empty());
        }
    }
    let deployment = match &url.path_segments {
        None => None,
        Some(segs) => {
            let ghost sv = string_views(segs@);
            let word = lit("deployments");
            let mut j: usize = 0;
            let mut found = false;
            while j < segs.len() && !found
                invariant
                    word@ == "deployments"@,
                    sv == string_views(segs@),
                    j <= segs@.len(),
                    !found ==> first_index(sv, word@, j as int) == first_index(sv, word@, 0),
                    found ==> j >= 1 && first_index(sv, word@, 0) == Some(j - 1),
                decreases segs.len() - j,
            {
                assert(sv[j as int] == segs@[j as int]@);
                if chars_eq(&str_chars(segs[j].as_str()), &word) {
                    found = true;
                }
                j = j + 1;
            }
            if found {
                let idx = j - 1;
                if idx + 1 < segs.len() && !segs[idx + 1].as_str().is_empty() {
                    proof {
                        assert(segs@[idx + 1]@ == sv[idx + 1]);
                    }
                    Some(copy_string(&segs[idx + 1]))
                } else {
                    proof {
                        if idx + 1 < segs@.len() {
                            assert(segs@[idx + 1]@ == sv[idx + 1]);
                        }
                    }
                    None
                }
            } else {
                assert(first_index(sv, word@, j as int) is None);
                None
            }
        },
    };
    (api_version, deployment)
}

/// Whether the URL's path has a `deployments` segment.
pub fn has_azure_deployment_path(url: &UrlParts) -> (b: bool)
    ensures
        b == match segment_views(url.path_segments) {
            Some(s) => first_index(s, "deployments"@, 0) is Some,
            None => false,
        },
{
    match &url.path_segments {
        None => false,
        Some(segs) => {
            let ghost sv = string_views(segs@);
            assert(segment_views(url.path_segments) == Some(sv));
            let word = lit("deployments");
            let mut j: usize = 0;
            let mut found = false;
            while j < segs.len() && !found
                invariant
                    word@ == "deployments"@,
                    sv == string_views(segs@),
                    j <= segs@.len(),
                    !found ==> first_index(sv, word@, j as int) == first_index(sv, word@, 0),
                    found ==> first_index(sv, word@, 0) is Some,
                decreases segs.len() - j,
            {
                assert(sv[j as int] == segs@[j as int]@);
                if chars_eq(&str_chars(segs[j].as_str()), &word) {
                    found = true;
                }
                j = j + 1;
            }
            proof {
                if !found {
                    assert(first_index(sv, word@, j as int) is None);
                }
            }
            found
        },
    }
}

/// The resource root of an endpoint: the URL without path, query and
/// fragment, and without a trailing `/`.
pub open spec fn endpoint_of(root: Seq<char>) -> Seq<char> {
    if root.len() > 0 && root.last() == '/' {
        root.drop_last()
    } else {
        root
    }
}

/// The endpoint the provider API expects (see `endpoint_of`).
pub fn normalize_azure_endpoint(url: &UrlParts) -> (r: String)
    ensures
        r@ == endpoint_of(url.root@),
{
    let mut c = str_chars(url.root.as_str());
    if c.len() > 0 && c[c.len() - 1] == '/' {
        c.pop();
    }
    string_from_chars(&c)
}

/// Why provider settings were refused.
#[derive(Debug, Clone, PartialEq, Eq)]
pub enum ProviderConfigError {
    /// A required setting is missing; the text names it.
    MissingConfig(String),
    /// Settings contradict each other; the text says how.
    InvalidConfig(String),
}

/// What an Azure provider is configured with.
#[derive(Debug, Clone, PartialEq, Eq)]
pub struct AzureSettings {
    pub endpoint: String,
    pub api_version: String,
    pub deployment_id: String,
}

/// Spec of `resolve_azure_settings`, over views: the endpoint, API version
/// and deployment, or the error.
pub open spec fn azure_settings(
    url: Option<(Seq<char>, Option<Seq<char>>, Option<Seq<char>>, bool)>,
    config_api_version: Option<Seq<char>>,
    config_deployment: Option<Seq<char>>,
) -> Result<(Seq<char>, Seq<char>, Seq<char>), (bool, Seq<char>)> {
    match url {
        None => Err((true, "model_api_url (Azure endpoint required)"@)),
        Some((root, url_version, url_deployment, has_path)) => {
            let version = match config_api_version {
                Some(v) => Some(v),
                None => url_version,
            };
            let deployment = match config_deployment {
                Some(d) => Some(d),
                None => url_deployment,
            };
            if version is None {
                Err((true, "azure_api_version (not found in config or URL)"@))
            } else if deployment is None {
                Err((true, "azure_deployment_id (not found in config or URL)"@))
            } else if config_deployment is Some && url_deployment is Some {
                Err((false, "azure_deployment_id provided in config and URL; use one source only"@))
            } else if config_deployment is Some && has_path {
                Err(
                    (
                        false,
                        "model_api_url contains /openai/deployments while azure_deployment_id is set; use a resource root URL or remove azure_deployment_id"@,
                    ),
                )
            } else {
                Ok((endpoint_of(root), version.unwrap(), deployment.unwrap()))
            }
        },
    }
}

/// The view of an error: whether a setting is missing, and its text.
pub open spec fn error_view(e: ProviderConfigError) -> (bool, Seq<char>) {
    match e {
        ProviderConfigError::MissingConfig(m) => (true, m@),
        ProviderConfigError::InvalidConfig(m) => (false, m@),
    }
}

/// What `resolve_azure_settings` reads of the URL.
pub open spec fn url_view(url: Option<UrlParts>) -> Option<(Seq<char>, Option<Seq<char>>, Option<Seq<char>>, bool)> {
    match url {
        None => None,
        Some(u) => Some(
            (
                u.root@,
                first_value(pair_views(u.query_pairs@), "api-version"@),
                deployment_in(segment_views(u.path_segments)),
                match segment_views(u.path_segments) {
                    Some(s) => first_index(s, "deployments"@, 0) is Some,
                    None => false,
                },
            ),
        ),
    }
}

fn opt_copy(o: &Option<String>) -> (r: Option<String>)
    ensures
        match o {
            Some(s) => r matches Some(x) && x@ == s@,
            None => r is None,
        },
{
    match o {
        Some(s) => Some(copy_string(s)),
        None => None,
    }
}

/// The settings of an Azure provider: the API version and deployment come
/// from the profile, else from the endpoint URL; a URL is required, both
/// values must be found, and a deployment set in the profile may not also
/// appear in the URL, nor may the URL then have a deployment path.
pub fn resolve_azure_settings(
    url: Option<UrlParts>,
    config_api_version: Option<String>,
    config_deployment: Option<String>,
) -> (r: Result<AzureSettings, ProviderConfigError>)
    ensures
        match azure_settings(
            url_view(url),
            match config_api_version {
                Some(v) => Some(v@),
                None => None,
            },
            match config_deployment {
                Some(d) => Some(d@),
                None => None,
            },
        ) {
            Ok((e, v, d)) => r matches Ok(s) && s.endpoint@ == e && s.api_version@ == v
                && s.deployment_id@ == d,
            Err(ev) => r matches Err(x) && error_view(x) == ev,
        },
{
    let u = match url {
        Some(u) => u,
        None => {
            return Err(
                ProviderConfigError::MissingConfig(
                    string_from_chars(&lit("model_api_url (Azure endpoint required)")),
                ),
            );
        },
    };
    let (url_version, url_deployment) = parse_azure_endpoint(&u);
    let has_path = has_azure_deployment_path(&u);
    let version = match config_api_version {
        Some(v) => v,
        None => match url_version {
            Some(v) => v,
            None => {
                return Err(
                    ProviderConfigError::MissingConfig(
                        string_from_chars(&lit("azure_api_version (not found in config or URL)")),
                    ),
                );
            },
        },
    };
    let config_has_deployment = config_deployment.is_some();
    let url_has_deployment = url_deployment.is_some();
    let deployment = match config_deployment {
        Some(d) => d,
        None => match url_deployment {
            Some(d) => d,
            None => {
                return Err(
                    ProviderConfigError::MissingConfig(
                        string_from_chars(&lit("azure_deployment_id (not found in config or URL)")),
                    ),
                );
            },
        },
    };
    if config_has_deployment && url_has_deployment {
        return Err(
            ProviderConfigError::InvalidConfig(
                string_from_chars(
                    &lit("azure_deployment_id provided in config and URL; use one source only"),
                ),
            ),
        );
    }
    if config_has_deployment && has_path {
        return Err(
            ProviderConfigError::InvalidConfig(
                string_from_chars(
                    &lit(
                        "model_api_url contains /openai/deployments while azure_deployment_id is set; use a resource root URL or remove azure_deployment_id",
                    ),
                ),
            ),
        );
    }
    let endpoint = normalize_azure_endpoint(&u);
    Ok(AzureSettings { endpoint, api_version: version, deployment_id: deployment })
}

/// An Azure provider needs an endpoint; an endpoint that names the API
/// version and the deployment is enough by itself; and a deployment set in
/// the profile is refused when the endpoint has a deployment path.
pub proof fn law_azure_settings(
    url: Option<(Seq<char>, Option<Seq<char>>, Option<Seq<char>>, bool)>,
    config_api_version: Option<Seq<char>>,
    config_deployment: Option<Seq<char>>,
)
    ensures
        azure_settings(None, config_api_version, config_deployment) == Err::<
            (Seq<char>, Seq<char>, Seq<char>),
            (bool, Seq<char>),
        >((true, "model_api_url (Azure endpoint required)"@)),
        url matches Some((root, Some(v), Some(d), _)) ==> azure_settings(url, None, None) == Ok::<
            (Seq<char>, Seq<char>, Seq<char>),
            (bool, Seq<char>),
        >((endpoint_of(root), v, d)),
        url matches Some((_, _, _, true)) ==> (config_deployment is Some ==> azure_settings(
            url,
            config_api_version,
            config_deployment,
        ) is Err),
{
}

} // verus!
