//! The Agent provider catalog: the built-in providers, provider validation
//! and the model choices an Agent configuration may make.
use vstd::prelude::*;
use crate::errors::{control_error, is_error, ControlError, ErrorCode, Outcome};
use crate::json::opt_view;
use crate::permissions::AgentMode;
use crate::text::{is_blank, is_blank_str, str_equals, text_list_contains, texts};

verus! {

/// A model a provider offers, with the reasoning efforts it accepts.
#[derive(Debug)]
pub struct ProviderModel {
    pub id: String,
    pub name: String,
    pub reasoning_efforts: Vec<String>,
}

/// An Agent provider: its identity, kind, optional endpoint and models.
#[derive(Debug)]
pub struct AgentProvider {
    pub id: String,
    pub name: String,
    pub kind: AgentMode,
    pub url: Option<String>,
    pub models: Vec<ProviderModel>,
}

/// A provider as listed to clients, with whether a secret is stored for it.
#[derive(Debug)]
pub struct AgentProviderView {
    pub provider: AgentProvider,
    pub has_secret: bool,
}

/// The model choice of an Agent.
#[derive(Debug)]
pub struct AgentConfiguration {
    pub provider_id: String,
    pub model: String,
    pub reasoning_effort: Option<String>,
}

/// The parts of a parsed URL that provider validation reads.
#[derive(Debug)]
pub struct UrlParts {
    pub scheme: String,
    pub host: Option<String>,
    pub username: String,
    pub password: Option<String>,
    pub query: Option<String>,
    pub fragment: Option<String>,
}

/// What `url::Url::parse` makes of a text, as (scheme, host, username,
/// password, query, fragment), or `None` when it refuses the text.
pub uninterp spec fn parsed_url(text: Seq<char>) -> Option<
    (Seq<char>, Option<Seq<char>>, Seq<char>, Option<Seq<char>>, Option<Seq<char>>, Option<Seq<char>>),
>;

/// The components of parsed URL parts.
pub open spec fn url_view(parts: UrlParts) -> (
    Seq<char>,
    Option<Seq<char>>,
    Seq<char>,
    Option<Seq<char>>,
    Option<Seq<char>>,
    Option<Seq<char>>,
) {
    (
        parts.scheme@,
        opt_view(parts.host),
        parts.username@,
        opt_view(parts.password),
        opt_view(parts.query),
        opt_view(parts.fragment),
    )
}

/// `url::Url::parse` and the `scheme`, `host_str`, `username`, `password`,
/// `query` and `fragment` of its result. The contract names the result
/// (`parsed_url`); WHATWG URL parsing is not restated here.
#[verifier::external_body]
fn parse_url(text: &str) -> (parts: Option<UrlParts>)
    ensures
        match (parts, parsed_url(text@)) {
            (Some(p), Some(v)) => url_view(p) == v,
            (None, None) => true,
            _ => false,
        },
{
    url::Url::parse(text).ok().map(
        |u|
            UrlParts {
                scheme: u.scheme().to_owned(),
                host: u.host_str().map(|h| h.to_owned()),
                username: u.username().to_owned(),
                password: u.password().map(|p| p.to_owned()),
                query: u.query().map(|q| q.to_owned()),
                fragment: u.fragment().map(|f| f.to_owned()),
            },
    )
}

/// The error of an invalid Agent or provider configuration.
pub open spec fn invalid_error(message: Seq<char>) -> (ErrorCode, Seq<char>, bool) {
    (ErrorCode::InvalidAgentConfiguration, message, false)
}

/// An error of an invalid Agent or provider configuration.
pub fn invalid(message: &str) -> (e: ControlError)
    ensures
        is_error(e, ErrorCode::InvalidAgentConfiguration, message@, false),
{
    control_error(ErrorCode::InvalidAgentConfiguration, message, false)
}

/// The message of an unusable provider URL.
pub open spec fn url_shape_message() -> Seq<char> {
    "provider URL must be HTTP(S), without credentials, query or fragment"@
}

/// A parsed provider URL is acceptable: HTTP(S) with a host, and no
/// credentials, query or fragment.
pub open spec fn url_acceptable(
    v: (Seq<char>, Option<Seq<char>>, Seq<char>, Option<Seq<char>>, Option<Seq<char>>, Option<Seq<char>>),
) -> bool {
    (v.0 == "http"@ || v.0 == "https"@) && v.1.is_some() && v.2.len() == 0 && v.3.is_none()
        && v.4.is_none() && v.5.is_none()
}

/// The verdict on a provider URL from what the parser made of it.
pub open spec fn url_check(parsed: Option<
    (Seq<char>, Option<Seq<char>>, Seq<char>, Option<Seq<char>>, Option<Seq<char>>, Option<Seq<char>>),
>) -> Outcome<()> {
    match parsed {
        None => Err(invalid_error("invalid provider URL"@)),
        Some(v) => if url_acceptable(v) {
            Ok(())
        } else {
            Err(invalid_error(url_shape_message()))
        },
    }
}

/// Judges a provider URL from its parsed parts (see `url_check`).
pub fn check_provider_url(parts: &Option<UrlParts>) -> (result: Result<(), ControlError>)
    ensures
        match (result, url_check(
            match *parts {
                Some(p) => Some(url_view(p)),
                None => None,
            },
        )) {
            (Ok(()), Ok(())) => true,
            (Err(e), Err(spec)) => is_error(e, spec.0, spec.1, spec.2),
            _ => false,
        },
{
    match parts {
        None => Err(invalid("invalid provider URL")),
        Some(p) => {
            let scheme_ok = str_equals(p.scheme.as_str(), "http") || str_equals(
                p.scheme.as_str(),
                "https",
            );
            if scheme_ok && p.host.is_some() && p.username.as_str().is_empty() && p.password.is_none()
                && p.query.is_none() && p.fragment.is_none() {
                Ok(())
            } else {
                Err(invalid("provider URL must be HTTP(S), without credentials, query or fragment"))
            }
        },
    }
}

/// No text occurs twice.
pub open spec fn distinct_texts(s: Seq<Seq<char>>) -> bool {
    forall|i: int, j: int| 0 <= i < j < s.len() ==> s[i] != s[j]
}

/// No text is blank.
pub open spec fn none_blank(s: Seq<Seq<char>>) -> bool {
    forall|i: int| 0 <= i < s.len() ==> !is_blank(#[trigger] s[i])
}

/// The ids of a list of models.
pub open spec fn model_ids(models: Seq<ProviderModel>) -> Seq<Seq<char>> {
    models.map_values(|m: ProviderModel| m.id@)
}

/// A model is well formed: non-blank id and name, and its reasoning efforts
/// are non-blank and distinct.
pub open spec fn model_well_formed(m: ProviderModel) -> bool {
    !is_blank(m.id@) && !is_blank(m.name@) && none_blank(texts(m.reasoning_efforts@))
        && distinct_texts(texts(m.reasoning_efforts@))
}

/// The outcome of validating a provider: a non-blank id and name, an
/// acceptable URL if one is given, and well-formed models with distinct ids.
pub open spec fn provider_check(p: AgentProvider) -> Outcome<()> {
    if is_blank(p.id@) || is_blank(p.name@) {
        Err(invalid_error("provider id and name are required"@))
    } else if p.url.is_some() && url_check(parsed_url(p.url.unwrap()@)) is Err {
        url_check(parsed_url(p.url.unwrap()@))
    } else if !(distinct_texts(model_ids(p.models@)) && forall|i: int|
        0 <= i < p.models@.len() ==> model_well_formed(#[trigger] p.models@[i])) {
        Err(invalid_error("model identifiers and reasoning efforts must be nonempty and unique"@))
    } else {
        Ok(())
    }
}

fn texts_distinct_and_filled(values: &Vec<String>) -> (ok: bool)
    ensures
        ok == (none_blank(texts(values@)) && distinct_texts(texts(values@))),
{
    let mut i: usize = 0;
    while i < values.len()
        invariant
            i <= values@.len(),
            forall|a: int| 0 <= a < i ==> !is_blank(#[trigger] texts(values@)[a]),
            forall|a: int, b: int| 0 <= a < b < i ==> texts(values@)[a] != texts(values@)[b],
        decreases values.len() - i,
    {
        if is_blank_str(values[i].as_str()) {
            proof {
                assert(is_blank(texts(values@)[i as int]));
            }
            return false;
        }
        let mut j: usize = 0;
        while j < i
            invariant
                j <= i < values@.len(),
                forall|a: int| 0 <= a < j ==> texts(values@)[a] != texts(values@)[i as int],
            decreases i - j,
        {
            if str_equals(values[j].as_str(), values[i].as_str()) {
                proof {
                    assert(texts(values@)[j as int] == texts(values@)[i as int]);
                }
                return false;
            }
            j = j + 1;
        }
        i = i + 1;
    }
    true
}

fn models_well_formed(models: &Vec<ProviderModel>) -> (ok: bool)
    ensures
        ok == (distinct_texts(model_ids(models@)) && forall|i: int|
            0 <= i < models@.len() ==> model_well_formed(#[trigger] models@[i])),
{
    let mut i: usize = 0;
    while i < models.len()
        invariant
            i <= models@.len(),
            forall|a: int| 0 <= a < i ==> model_well_formed(#[trigger] models@[a]),
            forall|a: int, b: int| 0 <= a < b < i ==> model_ids(models@)[a] != model_ids(models@)[b],
        decreases models.len() - i,
    {
        let m = &models[i];
        if is_blank_str(m.id.as_str()) || is_blank_str(m.name.as_str())
            || !texts_distinct_and_filled(&m.reasoning_efforts) {
            return false;
        }
        let mut j: usize = 0;
        while j < i
            invariant
                j <= i < models@.len(),
                forall|a: int| 0 <= a < j ==> model_ids(models@)[a] != model_ids(models@)[i as int],
            decreases i - j,
        {
            if str_equals(models[j].id.as_str(), models[i].id.as_str()) {
                proof {
                    assert(model_ids(models@)[j as int] == model_ids(models@)[i as int]);
                }
                return false;
            }
            j = j + 1;
        }
        i = i + 1;
    }
    true
}

/// Validates a provider definition (see `provider_check`).
pub fn validate_provider(provider: &AgentProvider) -> (result: Result<(), ControlError>)
    ensures
        match (result, provider_check(*provider)) {
            (Ok(()), Ok(())) => true,
            (Err(e), Err(spec)) => is_error(e, spec.0, spec.1, spec.2),
            _ => false,
        },
{
    if is_blank_str(provider.id.as_str()) || is_blank_str(provider.name.as_str()) {
        return Err(invalid("provider id and name are required"));
    }
    match &provider.url {
        Some(url) => {
            let parts = parse_url(url.as_str());
            match check_provider_url(&parts) {
                Ok(()) => {},
                Err(e) => return Err(e),
            }
        },
        None => {},
    }
    if !models_well_formed(&provider.models) {
        return Err(invalid("model identifiers and reasoning efforts must be nonempty and unique"));
    }
    Ok(())
}

/// `k` is the first model with id `id`.
pub open spec fn first_model(models: Seq<ProviderModel>, id: Seq<char>, k: int) -> bool {
    0 <= k < models.len() && models[k].id@ == id && forall|j: int|
        0 <= j < k ==> (#[trigger] models[j]).id@ != id
}

/// The outcome of checking an Agent configuration against its provider: the
/// model must be in the catalog, and a reasoning effort must be one the
/// first model with that id accepts.
pub open spec fn model_check(provider: AgentProvider, config: AgentConfiguration) -> Outcome<()> {
    if !(exists|k: int| first_model(provider.models@, config.model@, k)) {
        Err(invalid_error("model is not in the provider catalog"@))
    } else {
        let k = choose|k: int| first_model(provider.models@, config.model@, k);
        match config.reasoning_effort {
            Some(effort) => if texts(provider.models@[k].reasoning_efforts@).contains(effort@) {
                Ok(())
            } else {
                Err(invalid_error("reasoning effort is not supported by the selected model"@))
            },
            None => Ok(()),
        }
    }
}


/// Checks an Agent configuration against its provider (see `model_check`).
pub fn validate_model(provider: &AgentProvider, config: &AgentConfiguration) -> (result: Result<
    (),
    ControlError,
>)
    ensures
        match (result, model_check(*provider, *config)) {
            (Ok(()), Ok(())) => true,
            (Err(e), Err(spec)) => is_error(e, spec.0, spec.1, spec.2),
            _ => false,
        },
{
    let mut k: usize = 0;
    while k < provider.models.len()
        invariant
            k <= provider.models@.len(),
            forall|j: int| 0 <= j < k ==> (#[trigger] provider.models@[j]).id@ != config.model@,
        decreases provider.models.len() - k,
    {
        if str_equals(provider.models[k].id.as_str(), config.model.as_str()) {
            proof {
                assert(first_model(provider.models@, config.model@, k as int));
                let c = choose|c: int| first_model(provider.models@, config.model@, c);
                assert(c == k) by {
                    if c < k {
                        assert(provider.models@[c].id@ != config.model@);
                    } else if c > k {
                        assert(provider.models@[k as int].id@ != config.model@);
                    }
                }
            }
            return match &config.reasoning_effort {
                Some(effort) => if text_list_contains(
                    &provider.models[k].reasoning_efforts,
                    effort.as_str(),
                ) {
                    Ok(())
                } else {
                    Err(invalid("reasoning effort is not supported by the selected model"))
                },
                None => Ok(()),
            };
        }
        k = k + 1;
    }
    proof {
        assert(!exists|c: int| first_model(provider.models@, config.model@, c));
    }
    Err(invalid("model is not in the provider catalog"))
}

/// The reasoning efforts of the built-in Codex model.
pub open spec fn codex_efforts() -> Seq<Seq<char>> {
    seq!["low"@, "medium"@, "high"@, "xhigh"@, "max"@, "ultra"@]
}

/// The built-in provider: Codex with host authentication and its one model.
pub open spec fn is_builtin_codex(v: AgentProviderView) -> bool {
    &&& v.provider.id@ == "builtin-codex"@
    &&& v.provider.name@ == "Codex"@
    &&& v.provider.kind == AgentMode::Codex
    &&& v.provider.url.is_none()
    &&& v.provider.models@.len() == 1
    &&& v.provider.models@[0].id@ == "gpt-5.6-sol"@
    &&& v.provider.models@[0].name@ == "gpt-5.6-sol"@
    &&& texts(v.provider.models@[0].reasoning_efforts@) == codex_efforts()
    &&& !v.has_secret
}

/// The providers every installation starts with.
pub fn builtin_providers() -> (providers: Vec<AgentProviderView>)
    ensures
        providers@.len() == 1,
        is_builtin_codex(providers@[0]),
{
    let mut efforts: Vec<String> = Vec::new();
    efforts.push(String::from_str("low"));
    efforts.push(String::from_str("medium"));
    efforts.push(String::from_str("high"));
    efforts.push(String::from_str("xhigh"));
    efforts.push(String::from_str("max"));
    efforts.push(String::from_str("ultra"));
    proof {
        assert(texts(efforts@) =~= codex_efforts());
    }
    let mut models: Vec<ProviderModel> = Vec::new();
    models.push(
        ProviderModel {
            id: String::from_str("gpt-5.6-sol"),
            name: String::from_str("gpt-5.6-sol"),
            reasoning_efforts: efforts,
        },
    );
    let mut providers: Vec<AgentProviderView> = Vec::new();
    providers.push(
        AgentProviderView {
            provider: AgentProvider {
                id: String::from_str("builtin-codex"),
                name: String::from_str("Codex"),
                kind: AgentMode::Codex,
                url: None,
                models,
            },
            has_secret: false,
        },
    );
    providers
}

/// `k` is the first provider with id `id`.
pub open spec fn first_provider(providers: Seq<AgentProviderView>, id: Seq<char>, k: int) -> bool {
    0 <= k < providers.len() && providers[k].provider.id@ == id && forall|j: int|
        0 <= j < k ==> (#[trigger] providers[j]).provider.id@ != id
}

/// The outcome of checking an Agent configuration against the catalog: its
/// provider must exist, and the model choice must suit it (see
/// `model_check`). On success, the position of the provider.
pub open spec fn config_check(providers: Seq<AgentProviderView>, config: AgentConfiguration) -> Outcome<int> {
    if !(exists|k: int| first_provider(providers, config.provider_id@, k)) {
        Err(invalid_error("Agent provider not found"@))
    } else {
        let k = choose|k: int| first_provider(providers, config.provider_id@, k);
        match model_check(providers[k].provider, config) {
            Err(e) => Err(e),
            Ok(()) => Ok(k),
        }
    }
}

/// Checks an Agent configuration against the catalog (see `config_check`)
/// and returns the position of its provider.
pub fn validate_config(providers: &Vec<AgentProviderView>, config: &AgentConfiguration) -> (result: Result<
    usize,
    ControlError,
>)
    ensures
        match (result, config_check(providers@, *config)) {
            (Ok(i), Ok(k)) => i == k,
            (Err(e), Err(spec)) => is_error(e, spec.0, spec.1, spec.2),
            _ => false,
        },
{
    let mut k: usize = 0;
    while k < providers.len()
        invariant
            k <= providers@.len(),
            forall|j: int| 0 <= j < k ==> (#[trigger] providers@[j]).provider.id@ != config.provider_id@,
        decreases providers.len() - k,
    {
        if str_equals(providers[k].provider.id.as_str(), config.provider_id.as_str()) {
            proof {
                assert(first_provider(providers@, config.provider_id@, k as int));
                let c = choose|c: int| first_provider(providers@, config.provider_id@, c);
                assert(c == k) by {
                    if c < k {
                        assert(providers@[c].provider.id@ != config.provider_id@);
                    } else if c > k {
                        assert(providers@[k as int].provider.id@ != config.provider_id@);
                    }
                }
            }
            return match validate_model(&providers[k].provider, config) {
                Ok(()) => Ok(k),
                Err(e) => Err(e),
            };
        }
        k = k + 1;
    }
    proof {
        assert(!exists|c: int| first_provider(providers@, config.provider_id@, c));
    }
    Err(invalid("Agent provider not found"))
}

/// The reasoning efforts a model keeps when a provider is refreshed: a model
/// that advertises none keeps those of the first model with its id in the
/// existing provider, if there is one.
pub open spec fn kept_efforts(m: ProviderModel, existing: Option<AgentProvider>) -> Seq<Seq<char>> {
    if m.reasoning_efforts@.len() == 0 && existing is Some && exists|k: int|
        first_model(existing.unwrap().models@, m.id@, k) {
        let k = choose|k: int| first_model(existing.unwrap().models@, m.id@, k);
        texts(existing.unwrap().models@[k].reasoning_efforts@)
    } else {
        texts(m.reasoning_efforts@)
    }
}

fn copy_texts(values: &Vec<String>) -> (copy: Vec<String>)
    ensures
        texts(copy@) == texts(values@),
{
    let mut copy: Vec<String> = Vec::new();
    let mut i: usize = 0;
    while i < values.len()
        invariant
            i <= values@.len(),
            texts(copy@) == texts(values@).take(i as int),
        decreases values.len() - i,
    {
        let ghost before = copy@;
        copy.push(values[i].clone());
        proof {
            assert(texts(copy@) =~= texts(before).push(texts(values@)[i as int]));
            assert(texts(values@).take(i + 1) =~= texts(values@).take(i as int).push(
                texts(values@)[i as int],
            ));
        }
        i = i + 1;
    }
    proof {
        assert(texts(values@).take(values@.len() as int) =~= texts(values@));
    }
    copy
}

/// Keeps the reasoning efforts that a refreshed provider no longer
/// advertises (see `kept_efforts`); ids and names are unchanged.
pub fn preserve_unadvertised_reasoning_efforts(
    models: &mut Vec<ProviderModel>,
    existing: Option<&AgentProvider>,
)
    ensures
        final(models)@.len() == old(models)@.len(),
        forall|i: int|
            0 <= i < old(models)@.len() ==> {
                &&& (#[trigger] final(models)@[i]).id == old(models)@[i].id
                &&& final(models)@[i].name == old(models)@[i].name
                &&& texts(final(models)@[i].reasoning_efforts@) == kept_efforts(
                    old(models)@[i],
                    match existing {
                        Some(p) => Some(*p),
                        None => None,
                    },
                )
            },
{
    let ghost start = models@;
    let ghost ex: Option<AgentProvider> = match existing {
        Some(p) => Some(*p),
        None => None,
    };
    let mut i: usize = 0;
    while i < models.len()
        invariant
            i <= models@.len(),
            models@.len() == start.len(),
            start == old(models)@,
            ex == (match existing {
                Some(p) => Some(*p),
                None => None::<AgentProvider>,
            }),
            forall|j: int|
                0 <= j < i ==> {
                    &&& (#[trigger] models@[j]).id == start[j].id
                    &&& models@[j].name == start[j].name
                    &&& texts(models@[j].reasoning_efforts@) == kept_efforts(start[j], ex)
                },
            forall|j: int| i <= j < start.len() ==> #[trigger] models@[j] == start[j],
        decreases start.len() - i,
    {
        if models[i].reasoning_efforts.len() == 0 {
            match existing {
                Some(p) => {
                    let mut k: usize = 0;
                    let mut found: Option<usize> = None;
                    while k < p.models.len() && found.is_none()
                        invariant
                            k <= p.models@.len(),
                            i < models@.len(),
                            found matches Some(f) ==> first_model(p.models@, models@[i as int].id@, f as int),
                            forall|j: int| 0 <= j < k && (found is None || j < found.unwrap()) ==> (#[trigger] p.models@[j]).id@ != models@[i as int].id@,
                        decreases p.models.len() - k,
                    {
                        if str_equals(p.models[k].id.as_str(), models[i].id.as_str()) {
                            found = Some(k);
                        }
                        k = k + 1;
                    }
                    match found {
                        Some(k) => {
                            proof {
                                let id = models@[i as int].id@;
                                assert(first_model(p.models@, id, k as int));
                                let c = choose|c: int| first_model(p.models@, id, c);
                                assert(c == k) by {
                                    if c < k {
                                        assert(p.models@[c].id@ != id);
                                    } else if c > k {
                                        assert(p.models@[k as int].id@ != id);
                                    }
                                }
                            }
                            let efforts = copy_texts(&p.models[k].reasoning_efforts);
                            models[i].reasoning_efforts = efforts;
                        },
                        None => {
                            proof {
                                assert(!exists|c: int| first_model(p.models@, models@[i as int].id@, c));
                            }
                        },
                    }
                },
                None => {},
            }
        }
        i = i + 1;
    }
}

/// The content of a model: id, name and reasoning efforts.
pub open spec fn model_view(m: ProviderModel) -> (Seq<char>, Seq<char>, Seq<Seq<char>>) {
    (m.id@, m.name@, texts(m.reasoning_efforts@))
}

/// The content of a provider.
pub open spec fn provider_view(p: AgentProvider) -> (
    Seq<char>,
    Seq<char>,
    AgentMode,
    Option<Seq<char>>,
    Seq<(Seq<char>, Seq<char>, Seq<Seq<char>>)>,
) {
    (p.id@, p.name@, p.kind, opt_view(p.url), p.models@.map_values(|m: ProviderModel| model_view(m)))
}

/// The content of an Agent configuration.
pub open spec fn config_view(c: AgentConfiguration) -> (Seq<char>, Seq<char>, Option<Seq<char>>) {
    (c.provider_id@, c.model@, opt_view(c.reasoning_effort))
}

/// A copy of a provider with the same content.
pub fn copy_provider(p: &AgentProvider) -> (copy: AgentProvider)
    ensures
        provider_view(copy) == provider_view(*p),
{
    let mut models: Vec<ProviderModel> = Vec::new();
    let mut i: usize = 0;
    while i < p.models.len()
        invariant
            i <= p.models@.len(),
            models@.map_values(|m: ProviderModel| model_view(m)) == p.models@.map_values(
                |m: ProviderModel| model_view(m),
            ).take(i as int),
        decreases p.models.len() - i,
    {
        let ghost before = models@;
        let model = ProviderModel {
            id: p.models[i].id.clone(),
            name: p.models[i].name.clone(),
            reasoning_efforts: copy_texts(&p.models[i].reasoning_efforts),
        };
        models.push(model);
        proof {
            assert(models@.map_values(|m: ProviderModel| model_view(m)) =~= before.map_values(
                |m: ProviderModel| model_view(m),
            ).push(model_view(p.models@[i as int])));
            assert(p.models@.map_values(|m: ProviderModel| model_view(m)).take(i + 1)
                =~= p.models@.map_values(|m: ProviderModel| model_view(m)).take(i as int).push(
                model_view(p.models@[i as int]),
            ));
        }
        i = i + 1;
    }
    proof {
        assert(p.models@.map_values(|m: ProviderModel| model_view(m)).take(p.models@.len() as int)
            =~= p.models@.map_values(|m: ProviderModel| model_view(m)));
    }
    let url = match &p.url {
        Some(u) => Some(u.clone()),
        None => None,
    };
    AgentProvider { id: p.id.clone(), name: p.name.clone(), kind: p.kind, url, models }
}

/// A copy of an Agent configuration with the same content.
pub fn copy_config(c: &AgentConfiguration) -> (copy: AgentConfiguration)
    ensures
        config_view(copy) == config_view(*c),
{
    let reasoning_effort = match &c.reasoning_effort {
        Some(e) => Some(e.clone()),
        None => None,
    };
    AgentConfiguration { provider_id: c.provider_id.clone(), model: c.model.clone(), reasoning_effort }
}

/// An Agent: a named preset, or a Session's own configuration.
#[derive(Debug)]
pub struct AgentRecord {
    pub id: String,
    pub name: String,
    pub config: AgentConfiguration,
    /// The Session that owns this configuration, for a Session's own Agent.
    pub owner_session_id: Option<String>,
    pub revision: u64,
    pub enabled: bool,
}

/// `k` is the first enabled Agent with id `id`.
pub open spec fn first_enabled_agent(agents: Seq<AgentRecord>, id: Seq<char>, k: int) -> bool {
    0 <= k < agents.len() && agents[k].id@ == id && agents[k].enabled && forall|j: int|
        0 <= j < k ==> !((#[trigger] agents[j]).id@ == id && agents[j].enabled)
}

/// Some enabled Agent has id `id`.
pub open spec fn has_enabled_agent(agents: Seq<AgentRecord>, id: Seq<char>) -> bool {
    exists|k: int| first_enabled_agent(agents, id, k)
}

/// The position of the first enabled Agent with id `id`, or `AgentNotFound`.
pub fn require_agent(agents: &Vec<AgentRecord>, id: &str) -> (result: Result<usize, ControlError>)
    ensures
        match result {
            Ok(k) => first_enabled_agent(agents@, id@, k as int) && k == choose|c: int|
                first_enabled_agent(agents@, id@, c),
            Err(e) => !has_enabled_agent(agents@, id@) && is_error(
                e,
                ErrorCode::AgentNotFound,
                "enabled agent not found"@,
                false,
            ),
        },
{
    let mut k: usize = 0;
    while k < agents.len()
        invariant
            k <= agents@.len(),
            forall|j: int| 0 <= j < k ==> !((#[trigger] agents@[j]).id@ == id@ && agents@[j].enabled),
        decreases agents.len() - k,
    {
        if agents[k].enabled && str_equals(agents[k].id.as_str(), id) {
            proof {
                assert(first_enabled_agent(agents@, id@, k as int));
                let c = choose|c: int| first_enabled_agent(agents@, id@, c);
                assert(c == k) by {
                    if c < k {
                        assert(!(agents@[c].id@ == id@ && agents@[c].enabled));
                    } else if c > k {
                        assert(!(agents@[k as int].id@ == id@ && agents@[k as int].enabled));
                    }
                }
            }
            return Ok(k);
        }
        k = k + 1;
    }
    proof {
        if has_enabled_agent(agents@, id@) {
            let c = choose|c: int| first_enabled_agent(agents@, id@, c);
            assert(!(agents@[c].id@ == id@ && agents@[c].enabled));
        }
    }
    Err(control_error(ErrorCode::AgentNotFound, "enabled agent not found", false))
}

/// Some Agent has id `id`, enabled or not.
pub open spec fn agent_exists(agents: Seq<AgentRecord>, id: Seq<char>) -> bool {
    exists|k: int| 0 <= k < agents.len() && agents[k].id@ == id
}

/// Whether some Agent has id `id`.
pub fn has_agent_id(agents: &Vec<AgentRecord>, id: &str) -> (found: bool)
    ensures
        found == agent_exists(agents@, id@),
{
    let mut k: usize = 0;
    while k < agents.len()
        invariant
            k <= agents@.len(),
            forall|j: int| 0 <= j < k ==> (#[trigger] agents@[j]).id@ != id@,
        decreases agents.len() - k,
    {
        if str_equals(agents[k].id.as_str(), id) {
            return true;
        }
        k = k + 1;
    }
    false
}

/// The outcome of asking for a named Agent preset: the first enabled Agent
/// with the id, which must not belong to a Session. On success, its position.
pub open spec fn named_agent_check(agents: Seq<AgentRecord>, id: Seq<char>) -> Outcome<int> {
    if !has_enabled_agent(agents, id) {
        Err((ErrorCode::AgentNotFound, "enabled agent not found"@, false))
    } else {
        let k = choose|c: int| first_enabled_agent(agents, id, c);
        if agents[k].owner_session_id.is_some() {
            Err(invalid_error("a named Agent preset is required"@))
        } else {
            Ok(k)
        }
    }
}

/// The first enabled Agent with id `id`, which must be a named preset (not
/// a Session's own configuration).
pub fn require_named_agent(agents: &Vec<AgentRecord>, id: &str) -> (result: Result<usize, ControlError>)
    ensures
        match (result, named_agent_check(agents@, id@)) {
            (Ok(k), Ok(c)) => k == c,
            (Err(e), Err(spec)) => is_error(e, spec.0, spec.1, spec.2),
            _ => false,
        },
        match result {
            Ok(k) => first_enabled_agent(agents@, id@, k as int) && agents@[k as int].owner_session_id.is_none(),
            Err(e) => if has_enabled_agent(agents@, id@) {
                agents@[choose|c: int| first_enabled_agent(agents@, id@, c)].owner_session_id.is_some()
                    && is_error(e, ErrorCode::InvalidAgentConfiguration, "a named Agent preset is required"@, false)
            } else {
                is_error(e, ErrorCode::AgentNotFound, "enabled agent not found"@, false)
            },
        },
{
    let k = match require_agent(agents, id) {
        Ok(k) => k,
        Err(e) => return Err(e),
    };
    if agents[k].owner_session_id.is_some() {
        return Err(invalid("a named Agent preset is required"));
    }
    Ok(k)
}

/// The outcome of registering a named Agent preset: a non-blank, unused id,
/// a non-blank name, and a configuration that suits the catalog.
pub open spec fn registration_check(
    agents: Seq<AgentRecord>,
    providers: Seq<AgentProviderView>,
    id: Seq<char>,
    name: Seq<char>,
    config: AgentConfiguration,
) -> Outcome<()> {
    if is_blank(id) || is_blank(name) || agent_exists(agents, id) {
        Err(invalid_error("Agent id and name are required; id must be unique"@))
    } else {
        match config_check(providers, config) {
            Err(e) => Err(e),
            Ok(_) => Ok(()),
        }
    }
}

/// What registering a named Agent preset does (see `register_agent`).
pub open spec fn agent_registered(
    old_agents: Vec<AgentRecord>,
    new_agents: Vec<AgentRecord>,
    providers: &Vec<AgentProviderView>,
    id: String,
    name: String,
    config: AgentConfiguration,
    result: Result<usize, ControlError>,
) -> bool {
    match (result, registration_check(old_agents@, providers@, id@, name@, config)) {
        (Ok(k), Ok(())) => k == old_agents@.len() && new_agents@ == old_agents@.push(
            AgentRecord { id, name, config, owner_session_id: None, revision: 1, enabled: true },
        ),
        (Err(e), Err(spec)) => is_error(e, spec.0, spec.1, spec.2) && new_agents@ == old_agents@,
        _ => false,
    }
}

/// Registers a named Agent preset at revision 1 (see `registration_check`);
/// returns its position.
pub fn register_agent(
    agents: &mut Vec<AgentRecord>,
    providers: &Vec<AgentProviderView>,
    id: String,
    name: String,
    config: AgentConfiguration,
) -> (result: Result<usize, ControlError>)
    ensures
        agent_registered(
            *old(agents),
            *final(agents),
            providers,
            id,
            name,
            config,
            result,
        ),
{
    if is_blank_str(id.as_str()) || is_blank_str(name.as_str()) || has_agent_id(agents, id.as_str()) {
        return Err(invalid("Agent id and name are required; id must be unique"));
    }
    match validate_config(providers, &config) {
        Ok(_) => {},
        Err(e) => return Err(e),
    }
    agents.push(AgentRecord { id, name, config, owner_session_id: None, revision: 1, enabled: true });
    Ok(agents.len() - 1)
}

/// `k` is the first Agent with id `id`, enabled or not.
pub open spec fn first_agent(agents: Seq<AgentRecord>, id: Seq<char>, k: int) -> bool {
    0 <= k < agents.len() && agents[k].id@ == id && forall|j: int|
        0 <= j < k ==> (#[trigger] agents[j]).id@ != id
}

/// The position of the first Agent with id `id`, enabled or not.
pub fn find_agent(agents: &Vec<AgentRecord>, id: &str) -> (found: Option<usize>)
    ensures
        match found {
            Some(k) => first_agent(agents@, id@, k as int),
            None => !agent_exists(agents@, id@),
        },
{
    let mut k: usize = 0;
    while k < agents.len()
        invariant
            k <= agents@.len(),
            forall|j: int| 0 <= j < k ==> (#[trigger] agents@[j]).id@ != id@,
        decreases agents.len() - k,
    {
        if str_equals(agents[k].id.as_str(), id) {
            return Some(k);
        }
        k = k + 1;
    }
    None
}

/// No Agent with id `id` is at its last revision.
pub open spec fn revisions_below_max(agents: Seq<AgentRecord>, id: Seq<char>) -> bool {
    forall|k: int| 0 <= k < agents.len() && (#[trigger] agents[k]).id@ == id ==> agents[k].revision < u64::MAX
}

/// What updating a named Agent preset does (see `update_agent`).
pub open spec fn agent_updated(
    old_agents: Vec<AgentRecord>,
    new_agents: Vec<AgentRecord>,
    providers: &Vec<AgentProviderView>,
    id: Seq<char>,
    name: String,
    config: AgentConfiguration,
    result: Result<usize, ControlError>,
) -> bool {
    match result {
        Ok(k) => {
            &&& first_agent(old_agents@, id, k as int)
            &&& has_enabled_agent(old_agents@, id)
            &&& old_agents@[choose|c: int| first_enabled_agent(old_agents@, id, c)].owner_session_id.is_none()
            &&& !is_blank(name@)
            &&& config_check(providers@, config) is Ok
            &&& new_agents@ == old_agents@.update(
                k as int,
                AgentRecord {
                    name,
                    config,
                    revision: (old_agents@[k as int].revision + 1) as u64,
                    ..old_agents@[k as int]
                },
            )
        },
        Err(e) => new_agents@ == old_agents@ && (if !has_enabled_agent(old_agents@, id) {
            is_error(e, ErrorCode::AgentNotFound, "enabled agent not found"@, false)
        } else if old_agents@[choose|c: int| first_enabled_agent(old_agents@, id, c)].owner_session_id.is_some() {
            is_error(e, ErrorCode::InvalidAgentConfiguration, "a named Agent preset is required"@, false)
        } else if is_blank(name@) {
            is_error(e, ErrorCode::InvalidAgentConfiguration, "preset name is required"@, false)
        } else {
            config_check(providers@, config) matches Err(spec) && is_error(e, spec.0, spec.1, spec.2)
        }),
    }
}

/// Updates a named Agent preset: it must be a named preset, the new name
/// must not be blank, and the configuration must suit the catalog; the first
/// Agent with the id takes the name and configuration and moves to its next
/// revision. Returns its position.
pub fn update_agent(
    agents: &mut Vec<AgentRecord>,
    providers: &Vec<AgentProviderView>,
    id: &str,
    name: String,
    config: AgentConfiguration,
) -> (result: Result<usize, ControlError>)
    requires
        revisions_below_max(old(agents)@, id@),
    ensures
        agent_updated(
            *old(agents),
            *final(agents),
            providers,
            id@,
            name,
            config,
            result,
        ),
{
    match require_named_agent(agents, id) {
        Ok(_) => {},
        Err(e) => return Err(e),
    }
    if is_blank_str(name.as_str()) {
        return Err(invalid("preset name is required"));
    }
    match validate_config(providers, &config) {
        Ok(_) => {},
        Err(e) => return Err(e),
    }
    let k = match find_agent(agents, id) {
        Some(k) => k,
        None => {
            proof {
                let c = choose|c: int| first_enabled_agent(agents@, id@, c);
                assert(agents@[c].id@ == id@);
                assert(false);
            }
            return Err(invalid("preset name is required"));
        },
    };
    let ghost before = agents@;
    agents[k].name = name;
    agents[k].config = config;
    agents[k].revision = agents[k].revision + 1;
    proof {
        assert(agents@ =~= before.update(
            k as int,
            AgentRecord { name, config, revision: (before[k as int].revision + 1) as u64, ..before[k as int] },
        ));
    }
    Ok(k)
}

} // verus!
