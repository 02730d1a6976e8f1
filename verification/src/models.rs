//! The provider registry: a fixed table of providers and their models.

use crate::text::{chars_of, contains, contains_chars};
use vstd::prelude::*;

verus! {

/// A provider of chat models.
#[derive(Debug, Clone, PartialEq, Eq)]
pub struct ModelProvider {
    pub name: String,
    /// Endpoint that takes completion requests.
    pub api_base: String,
    /// Name of the environment variable that holds the credential.
    pub api_key_env: String,
    pub models: Vec<Model>,
}

/// A chat model.
#[derive(Debug, Clone, PartialEq, Eq)]
pub struct Model {
    /// Identifier sent to the provider.
    pub id: String,
    /// Short display name.
    pub name: String,
    /// Name of the provider that serves it.
    pub provider: String,
}

/// Mathematical model of a [`Model`].
pub ghost struct ModelView {
    pub id: Seq<char>,
    pub name: Seq<char>,
    pub provider: Seq<char>,
}

/// Mathematical model of a [`ModelProvider`].
pub ghost struct ProviderView {
    pub name: Seq<char>,
    pub api_base: Seq<char>,
    pub api_key_env: Seq<char>,
    pub models: Seq<ModelView>,
}

/// The models of a run of models.
pub open spec fn models_view(models: Seq<Model>) -> Seq<ModelView> {
    Seq::new(models.len(), |i: int| models[i]@)
}

/// The models of a run of providers.
pub open spec fn providers_view(providers: Seq<ModelProvider>) -> Seq<ProviderView> {
    Seq::new(providers.len(), |i: int| providers[i]@)
}

impl View for Model {
    type V = ModelView;

    open spec fn view(&self) -> ModelView {
        ModelView { id: self.id@, name: self.name@, provider: self.provider@ }
    }
}

impl View for ModelProvider {
    type V = ProviderView;

    open spec fn view(&self) -> ProviderView {
        ProviderView {
            name: self.name@,
            api_base: self.api_base@,
            api_key_env: self.api_key_env@,
            models: models_view(self.models@),
        }
    }
}

/// The registry: every provider with its models, in registration order.
pub open spec fn registry() -> Seq<ProviderView> {
    seq![
        ProviderView {
            name: "deepseek"@,
            api_base: "https://ark.cn-beijing.volces.com/api/v3/chat/completions"@,
            api_key_env: "OPENAI_API_KEY"@,
            models: seq![
                ModelView {
                    id: "deepseek-r1-250120"@,
                    name: "deepseek-r1"@,
                    provider: "deepseek"@,
                },
                ModelView {
                    id: "deepseek-v3-241226"@,
                    name: "deepseek-v3"@,
                    provider: "deepseek"@,
                },
            ],
        },
        ProviderView {
            name: "openrouter"@,
            api_base: "https://openrouter.ai/api/v1/chat/completions"@,
            api_key_env: "OPENROUTER_API_KEY"@,
            models: seq![
                ModelView {
                    id: "google/gemini-2.0-flash-001"@,
                    name: "gemini-flash"@,
                    provider: "openrouter"@,
                },
                ModelView {
                    id: "google/gemini-2.0-flash-lite-001"@,
                    name: "gemini-flash-lite"@,
                    provider: "openrouter"@,
                },
                ModelView {
                    id: "google/gemini-2.0-pro-exp-02-05"@,
                    name: "gemini-pro"@,
                    provider: "openrouter"@,
                },
            ],
        },
    ]
}

/// Whether `query` occurs in the model's display name or identifier.
pub open spec fn model_matches(model: ModelView, query: Seq<char>) -> bool {
    contains(model.name, query) || contains(model.id, query)
}

/// The models among `models` that match `query`, in their order.
pub open spec fn matching(models: Seq<ModelView>, query: Seq<char>) -> Seq<ModelView>
    decreases models.len(),
{
    if models.len() == 0 {
        Seq::empty()
    } else if model_matches(models.last(), query) {
        matching(models.drop_last(), query).push(models.last())
    } else {
        matching(models.drop_last(), query)
    }
}

/// The models of `providers` that match `query`: provider by provider, and
/// within a provider model by model.
pub open spec fn matching_in(providers: Seq<ProviderView>, query: Seq<char>) -> Seq<ModelView>
    decreases providers.len(),
{
    if providers.len() == 0 {
        Seq::empty()
    } else {
        matching_in(providers.drop_last(), query) + matching(providers.last().models, query)
    }
}

/// Whether the provider serves a model with identifier `id`.
pub open spec fn serves(provider: ProviderView, id: Seq<char>) -> bool {
    exists|i: int| 0 <= i < provider.models.len() && (#[trigger] provider.models[i]).id == id
}

/// The first of `providers` that serves the model `id`.
pub open spec fn provider_of(providers: Seq<ProviderView>, id: Seq<char>) -> Option<ProviderView>
    decreases providers.len(),
{
    if providers.len() == 0 {
        None
    } else if serves(providers[0], id) {
        Some(providers[0])
    } else {
        provider_of(providers.drop_first(), id)
    }
}

fn model(id: &str, name: &str, provider: &str) -> (out: Model)
    ensures
        out@ == (ModelView { id: id@, name: name@, provider: provider@ }),
{
    Model { id: id.to_owned(), name: name.to_owned(), provider: provider.to_owned() }
}

impl Model {
    /// A copy of this model.
    pub fn duplicate(&self) -> (out: Model)
        ensures
            out@ == self@,
    {
        Model { id: self.id.clone(), name: self.name.clone(), provider: self.provider.clone() }
    }
}

/// The registry.
pub fn get_providers() -> (out: Vec<ModelProvider>)
    ensures
        providers_view(out@) == registry(),
{
    let mut deepseek: Vec<Model> = Vec::new();
    deepseek.push(model("deepseek-r1-250120", "deepseek-r1", "deepseek"));
    deepseek.push(model("deepseek-v3-241226", "deepseek-v3", "deepseek"));
    let mut openrouter: Vec<Model> = Vec::new();
    openrouter.push(model("google/gemini-2.0-flash-001", "gemini-flash", "openrouter"));
    openrouter.push(model("google/gemini-2.0-flash-lite-001", "gemini-flash-lite", "openrouter"));
    openrouter.push(model("google/gemini-2.0-pro-exp-02-05", "gemini-pro", "openrouter"));
    let mut out: Vec<ModelProvider> = Vec::new();
    out.push(
        ModelProvider {
            name: "deepseek".to_owned(),
            api_base: "https://ark.cn-beijing.volces.com/api/v3/chat/completions".to_owned(),
            api_key_env: "OPENAI_API_KEY".to_owned(),
            models: deepseek,
        },
    );
    out.push(
        ModelProvider {
            name: "openrouter".to_owned(),
            api_base: "https://openrouter.ai/api/v1/chat/completions".to_owned(),
            api_key_env: "OPENROUTER_API_KEY".to_owned(),
            models: openrouter,
        },
    );
    proof {
        assert(out@[0]@.models =~= registry()[0].models);
        assert(out@[1]@.models =~= registry()[1].models);
        assert(providers_view(out@) =~= registry());
    }
    out
}

fn model_is_match(model: &Model, query: &[char]) -> (out: bool)
    ensures
        out == model_matches(model@, query@),
{
    let name = chars_of(model.name.as_str());
    if contains_chars(name.as_slice(), query) {
        return true;
    }
    let id = chars_of(model.id.as_str());
    contains_chars(id.as_slice(), query)
}

fn push_matching(models: &Vec<Model>, query: &[char], found: &mut Vec<Model>)
    ensures
        models_view(final(found)@) == models_view(old(found)@) + matching(
            models_view(models@),
            query@,
        ),
{
    let ghost all = models_view(models@);
    let ghost before = models_view(found@);
    let mut i: usize = 0;
    proof {
        assert(all.take(0) =~= Seq::<ModelView>::empty());
        assert(before + matching(all.take(0), query@) =~= before);
    }
    while i < models.len()
        invariant
            i <= models@.len(),
            all == models_view(models@),
            models_view(found@) == before + matching(all.take(i as int), query@),
        decreases models@.len() - i,
    {
        proof {
            assert(all.take(i + 1).drop_last() =~= all.take(i as int));
            assert(all.take(i + 1).last() == models@[i as int]@);
        }
        if model_is_match(&models[i], query) {
            let copy = models[i].duplicate();
            proof {
                assert(models_view(found@.push(copy)) =~= models_view(found@).push(copy@));
                assert(before + matching(all.take(i + 1), query@) =~= (before + matching(
                    all.take(i as int),
                    query@,
                )).push(copy@));
            }
            found.push(copy);
        }
        i += 1;
    }
    proof {
        assert(all.take(i as int) =~= all);
    }
}

/// The models among `providers` whose display name or identifier contains
/// `query`, in registration order. The match is case-sensitive.
pub fn find_models_in(providers: &Vec<ModelProvider>, query: &str) -> (out: Vec<Model>)
    ensures
        models_view(out@) == matching_in(providers_view(providers@), query@),
{
    let wanted = chars_of(query);
    let ghost all = providers_view(providers@);
    let mut out: Vec<Model> = Vec::new();
    let mut i: usize = 0;
    proof {
        assert(all.take(0) =~= Seq::<ProviderView>::empty());
        assert(models_view(out@) =~= Seq::<ModelView>::empty());
    }
    while i < providers.len()
        invariant
            i <= providers@.len(),
            all == providers_view(providers@),
            wanted@ == query@,
            models_view(out@) == matching_in(all.take(i as int), query@),
        decreases providers@.len() - i,
    {
        proof {
            assert(all.take(i + 1).drop_last() =~= all.take(i as int));
            assert(all.take(i + 1).last() == providers@[i as int]@);
        }
        push_matching(&providers[i].models, wanted.as_slice(), &mut out);
        i += 1;
    }
    proof {
        assert(all.take(i as int) =~= all);
    }
    out
}

/// The registered models whose display name or identifier contains `query`,
/// in registration order. The match is case-sensitive.
pub fn find_models(query: &str) -> (out: Vec<Model>)
    ensures
        models_view(out@) == matching_in(registry(), query@),
{
    let providers = get_providers();
    find_models_in(&providers, query)
}

fn provider_serves(provider: &ModelProvider, id: &[char]) -> (out: bool)
    ensures
        out == serves(provider@, id@),
{
    let mut i: usize = 0;
    while i < provider.models.len()
        invariant
            i <= provider.models@.len(),
            forall|j: int| 0 <= j < i ==> (#[trigger] provider@.models[j]).id != id@,
        decreases provider.models@.len() - i,
    {
        let candidate = chars_of(provider.models[i].id.as_str());
        if crate::text::chars_equal(candidate.as_slice(), id) {
            assert(provider@.models[i as int].id == id@);
            return true;
        }
        i += 1;
    }
    false
}

/// The first of `providers` that serves the model `model_id`.
pub fn provider_by_model_in(providers: Vec<ModelProvider>, model_id: &str) -> (out: Option<
    ModelProvider,
>)
    ensures
        match out {
            Some(provider) => provider_of(providers_view(providers@), model_id@) == Some(
                provider@,
            ),
            None => provider_of(providers_view(providers@), model_id@) is None,
        },
{
    let wanted = chars_of(model_id);
    let ghost all = providers_view(providers@);
    let mut candidates = providers;
    let mut at: usize = 0;
    proof {
        assert(all.skip(0) =~= all);
    }
    while at < candidates.len()
        invariant
            at <= candidates@.len(),
            candidates@ == providers@,
            all == providers_view(providers@),
            wanted@ == model_id@,
            provider_of(all, model_id@) == provider_of(all.skip(at as int), model_id@),
        decreases candidates@.len() - at,
    {
        proof {
            assert(all.skip(at as int)[0] == all[at as int]);
            assert(all.skip(at as int).drop_first() =~= all.skip(at + 1));
        }
        if provider_serves(&candidates[at], wanted.as_slice()) {
            let found = candidates.swap_remove(at);
            return Some(found);
        }
        at += 1;
    }
    None
}

/// The registered provider that serves the model `model_id`.
pub fn get_provider_by_model(model_id: &str) -> (out: Option<ModelProvider>)
    ensures
        match out {
            Some(provider) => provider_of(registry(), model_id@) == Some(provider@),
            None => provider_of(registry(), model_id@) is None,
        },
{
    provider_by_model_in(get_providers(), model_id)
}

} // verus!
