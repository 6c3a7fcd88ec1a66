//! The language model a session talks to, written `PROVIDER:MODEL`.

use vstd::prelude::*;

use crate::text::{
    chars_of, concat, is_whitespace_spec, law_split_join, law_trim_idempotent, lemma_split_first,
    split_on, string_from_range, trim_spec, trim_string,
};

verus! {

/// A model of a provider.
#[derive(Clone, Debug, Eq, PartialEq)]
pub struct Model {
    pub name: String,
    pub provider: String,
}

/// Why a model could not be made.
#[derive(Clone, Copy, Debug, Eq, PartialEq, Structural)]
pub enum ModelError {
    EmptyName,
    EmptyProvider,
    MissingSeparator,
}

/// The message of a model error.
pub open spec fn model_error_message(e: ModelError) -> Seq<char> {
    match e {
        ModelError::EmptyName => "model name cannot be empty"@,
        ModelError::EmptyProvider => "model provider cannot be empty"@,
        ModelError::MissingSeparator => "model must be PROVIDER:MODEL"@,
    }
}

impl ModelError {
    /// The error's message.
    pub fn message(self) -> (r: &'static str)
        ensures
            r@ == model_error_message(self),
    {
        match self {
            ModelError::EmptyName => "model name cannot be empty",
            ModelError::EmptyProvider => "model provider cannot be empty",
            ModelError::MissingSeparator => "model must be PROVIDER:MODEL",
        }
    }
}

/// The name and provider of a model, as characters.
pub type ModelView = (Seq<char>, Seq<char>);

impl View for Model {
    type V = ModelView;

    open spec fn view(&self) -> ModelView {
        (self.name@, self.provider@)
    }
}

/// What `Model::new` gives: both parts trimmed, the provider checked first.
pub open spec fn model_new_spec(provider: Seq<char>, name: Seq<char>) -> Result<
    ModelView,
    ModelError,
> {
    if trim_spec(provider).len() == 0 {
        Err(ModelError::EmptyProvider)
    } else if trim_spec(name).len() == 0 {
        Err(ModelError::EmptyName)
    } else {
        Ok((trim_spec(name), trim_spec(provider)))
    }
}

/// What parsing `PROVIDER:MODEL` gives: the text is split at its first colon,
/// and the parts are checked as `Model::new` checks them.
pub open spec fn model_parse_spec(s: Seq<char>) -> Result<ModelView, ModelError> {
    let pieces = split_on(s, ':');
    if pieces.len() == 1 {
        Err(ModelError::MissingSeparator)
    } else {
        model_new_spec(pieces[0], s.skip(pieces[0].len() as int + 1))
    }
}

/// How a model is written: `PROVIDER:MODEL`.
pub open spec fn model_display_spec(m: ModelView) -> Seq<char> {
    m.1 + seq![':'] + m.0
}

/// The answer of a fallible model constructor, seen through views.
pub open spec fn model_result_view(r: Result<Model, ModelError>) -> Result<ModelView, ModelError> {
    match r {
        Ok(m) => Ok(m@),
        Err(e) => Err(e),
    }
}

impl Model {
    /// A model from its provider and name, each trimmed; neither may be empty.
    pub fn new(provider: &str, name: &str) -> (r: Result<Model, ModelError>)
        ensures
            model_result_view(r) == model_new_spec(provider@, name@),
    {
        let provider = trim_string(provider);
        if provider.as_str().is_empty() {
            return Err(ModelError::EmptyProvider);
        }
        let name = trim_string(name);
        if name.as_str().is_empty() {
            return Err(ModelError::EmptyName);
        }
        Ok(Model { name, provider })
    }

    /// A model from `PROVIDER:MODEL`, split at the first colon.
    pub fn parse(s: &str) -> (r: Result<Model, ModelError>)
        ensures
            model_result_view(r) == model_parse_spec(s@),
    {
        let chars = chars_of(s);
        let n = chars.len();
        let mut k: usize = 0;
        while k < n && chars[k] != ':'
            invariant
                n == chars@.len(),
                chars@ == s@,
                k <= n,
                forall|i: int| 0 <= i < k ==> s@[i] != ':',
            decreases n - k,
        {
            k = k + 1;
        }
        proof {
            lemma_split_first(s@, ':');
            let p0 = split_on(s@, ':')[0];
            if p0.len() < k {
                assert(s@[p0.len() as int] == ':');
            }
            if k < p0.len() {
                assert(p0[k as int] == s@.take(p0.len() as int)[k as int]);
            }
            assert(p0.len() == k);
        }
        if k == n {
            return Err(ModelError::MissingSeparator);
        }
        let provider = string_from_range(&chars, 0, k);
        let name = string_from_range(&chars, k + 1, n);
        proof {
            assert(s@.subrange(0, k as int) == s@.take(k as int));
            assert(s@.subrange(k + 1, n as int) == s@.skip(k + 1));
        }
        Model::new(provider.as_str(), name.as_str())
    }

    /// How the model is written: `PROVIDER:MODEL`.
    pub fn to_display_string(&self) -> (r: String)
        ensures
            r@ == model_display_spec(self@),
    {
        let head = concat(self.provider.as_str(), ":");
        proof {
            reveal_strlit(":");
            assert(":"@ =~= seq![':']);
        }
        concat(head.as_str(), self.name.as_str())
    }
}

impl Default for Model {
    /// The local mock model.
    fn default() -> (r: Model)
        ensures
            r@ == (seq!['l', 'o', 'c', 'a', 'l'], seq!['m', 'o', 'c', 'k']),
    {
        proof {
            reveal_strlit("local");
            reveal_strlit("mock");
        }
        let name = crate::text::copy_str("local");
        let provider = crate::text::copy_str("mock");
        Model { name, provider }
    }
}

impl std::str::FromStr for Model {
    type Err = ModelError;

    /// Parses `PROVIDER:MODEL`, as `Model::parse` does.
    fn from_str(s: &str) -> (r: Result<Model, ModelError>)
        ensures
            model_result_view(r) == model_parse_spec(s@),
    {
        Model::parse(s)
    }
}

/// A model as `Model::new` or `parse` make one: both parts trimmed and not
/// empty, and a provider without a colon (parsing splits at the first one).
pub open spec fn well_formed_model(m: ModelView) -> bool {
    &&& m.0.len() > 0
    &&& m.1.len() > 0
    &&& trim_spec(m.0) == m.0
    &&& trim_spec(m.1) == m.1
    &&& !m.1.contains(':')
}

/// Writing a model and parsing it back gives the same model.
pub proof fn law_display_parse_roundtrip(m: ModelView)
    requires
        well_formed_model(m),
    ensures
        model_parse_spec(model_display_spec(m)) == Ok::<ModelView, ModelError>(m),
{
    let s = model_display_spec(m);
    let p = m.1;
    lemma_split_first(s, ':');
    let p0 = split_on(s, ':')[0];
    assert(s[p.len() as int] == ':');
    if p0.len() < p.len() {
        assert(s[p0.len() as int] == p[p0.len() as int]);
    }
    if p0.len() > p.len() {
        assert(p0[p.len() as int] == s.take(p0.len() as int)[p.len() as int]);
    }
    assert(p0.len() == p.len());
    assert(p0 =~= p);
    assert(s.skip(p.len() as int + 1) =~= m.0);
}

/// A model that parsing accepts is well formed, except that its provider
/// may not hold a colon only because parsing split there.
pub proof fn law_parsed_model_well_formed(s: Seq<char>)
    requires
        model_parse_spec(s) is Ok,
    ensures
        well_formed_model(model_parse_spec(s)->Ok_0),
{
    let pieces = split_on(s, ':');
    lemma_split_first(s, ':');
    law_trim_idempotent(pieces[0]);
    law_trim_idempotent(s.skip(pieces[0].len() as int + 1));
    crate::text::lemma_trim_edges(pieces[0]);
    let t = trim_spec(pieces[0]);
    if t.contains(':') {
        crate::text::lemma_trim_subrange(pieces[0]);
        let k = choose|k: int| 0 <= k < t.len() && t[k] == ':';
        let (a, _b) = crate::text::trim_bounds(pieces[0]);
        assert(t[k] == pieces[0][a + k]);
    }
}

} // verus!
