//! The language models the server can talk to, and how a configured name
//! selects one.

use vstd::prelude::*;

use crate::text::same_text;

verus! {

/// A language model family.
#[derive(Clone, Copy, Debug, PartialEq, Eq, Structural)]
pub enum AIModel {
    Gpt4,
    Gpt35Turbo,
    Bloom,
    Gpt2,
    GptJ,
    GptNeoX,
    Llama,
    Mpt,
}

/// The model used when none is configured.
impl Default for AIModel {
    fn default() -> (m: AIModel)
        ensures
            m == AIModel::Llama,
    {
        AIModel::Llama
    }
}

/// The model that an already lower-cased name selects: one of the model
/// names, or the empty name for the default model; `None` for any other name.
pub open spec fn model_for_lowercase(name: Seq<char>) -> Option<AIModel> {
    if name == "gpt4"@ {
        Some(AIModel::Gpt4)
    } else if name == "gpt35turbo"@ {
        Some(AIModel::Gpt35Turbo)
    } else if name == "bloom"@ {
        Some(AIModel::Bloom)
    } else if name == "gpt2"@ {
        Some(AIModel::Gpt2)
    } else if name == "gptj"@ {
        Some(AIModel::GptJ)
    } else if name == "gptneox"@ {
        Some(AIModel::GptNeoX)
    } else if name == "llama"@ {
        Some(AIModel::Llama)
    } else if name == "mpt"@ {
        Some(AIModel::Mpt)
    } else if name == ""@ {
        Some(AIModel::Llama)
    } else {
        None
    }
}

/// What parsing an already lower-cased name gives.
pub open spec fn parsed_lowercase(name: Seq<char>) -> Result<AIModel, ()> {
    match model_for_lowercase(name) {
        Some(m) => Ok(m),
        None => Err(()),
    }
}

/// What `str::to_lowercase` makes of a string: its lower-case equivalent by
/// the Unicode `Lowercase` property.
pub uninterp spec fn lowercase_of(s: Seq<char>) -> Seq<char>;

/// Calls `str::to_lowercase`; its result is named `lowercase_of` the
/// argument, and nothing more is claimed of it.
#[verifier::external_body]
fn to_lowercase(s: &str) -> (r: String)
    ensures
        r@ == lowercase_of(s@),
{
    s.to_lowercase()
}

/// The text of a setting that may be absent: the empty text when it is.
pub open spec fn setting_text(setting: Option<&str>) -> Seq<char> {
    match setting {
        Some(s) => s@,
        None => ""@,
    }
}

impl AIModel {
    /// Selects the model named by an already lower-cased name.
    pub fn from_lowercase(name: &str) -> (r: Result<AIModel, ()>)
        ensures
            r == parsed_lowercase(name@),
    {
        if same_text(name, "gpt4") {
            Ok(AIModel::Gpt4)
        } else if same_text(name, "gpt35turbo") {
            Ok(AIModel::Gpt35Turbo)
        } else if same_text(name, "bloom") {
            Ok(AIModel::Bloom)
        } else if same_text(name, "gpt2") {
            Ok(AIModel::Gpt2)
        } else if same_text(name, "gptj") {
            Ok(AIModel::GptJ)
        } else if same_text(name, "gptneox") {
            Ok(AIModel::GptNeoX)
        } else if same_text(name, "llama") {
            Ok(AIModel::Llama)
        } else if same_text(name, "mpt") {
            Ok(AIModel::Mpt)
        } else if same_text(name, "") {
            Ok(AIModel::default())
        } else {
            Err(())
        }
    }

    /// Selects the model that `s` names, whatever the case of its letters:
    /// `s` is lower-cased, then read as `from_lowercase` reads it.
    pub fn parse(s: &str) -> (r: Result<AIModel, ()>)
        ensures
            r == parsed_lowercase(lowercase_of(s@)),
    {
        let lower = to_lowercase(s);
        AIModel::from_lowercase(lower.as_str())
    }

    /// The model that a configuration setting selects: an absent setting is
    /// read as the empty name, and a name that selects no model gives the
    /// default model.
    pub fn from_setting(setting: Option<&str>) -> (m: AIModel)
        ensures
            m == match parsed_lowercase(lowercase_of(setting_text(setting))) {
                Ok(chosen) => chosen,
                Err(_) => AIModel::Llama,
            },
            setting matches Some(s) ==> m == match parsed_lowercase(lowercase_of(s@)) {
                Ok(chosen) => chosen,
                Err(_) => AIModel::Llama,
            },
    {
        let text = match setting {
            Some(s) => s,
            None => "",
        };
        match AIModel::parse(text) {
            Ok(m) => m,
            Err(_) => AIModel::default(),
        }
    }
}

/// A present setting is read whole: it selects what parsing all of its text
/// selects, or the default model where that fails; an absent setting is read
/// as the empty name.
pub proof fn lemma_setting_read_whole(s: &str)
    ensures
        setting_text(Some(s)) == s@,
        setting_text(None).len() == 0,
        match parsed_lowercase(lowercase_of(setting_text(Some(s)))) {
            Ok(chosen) => chosen,
            Err(_) => AIModel::Llama,
        } == match parsed_lowercase(lowercase_of(s@)) {
            Ok(chosen) => chosen,
            Err(_) => AIModel::Llama,
        },
{
    reveal_strlit("");
}

/// The lower-case name of a model.
pub open spec fn lowercase_name(m: AIModel) -> Seq<char> {
    match m {
        AIModel::Gpt4 => "gpt4"@,
        AIModel::Gpt35Turbo => "gpt35turbo"@,
        AIModel::Bloom => "bloom"@,
        AIModel::Gpt2 => "gpt2"@,
        AIModel::GptJ => "gptj"@,
        AIModel::GptNeoX => "gptneox"@,
        AIModel::Llama => "llama"@,
        AIModel::Mpt => "mpt"@,
    }
}

/// Every model is selected by its lower-case name, and by no other name but
/// the empty name, which selects the default model.
pub proof fn lemma_models_selected_by_name(m: AIModel, name: Seq<char>)
    ensures
        model_for_lowercase(lowercase_name(m)) == Some(m),
        model_for_lowercase(name) == Some(m) ==> name == lowercase_name(m) || (m == AIModel::Llama
            && name.len() == 0),
{
    reveal_strlit("gpt4");
    reveal_strlit("gpt35turbo");
    reveal_strlit("bloom");
    reveal_strlit("gpt2");
    reveal_strlit("gptj");
    reveal_strlit("gptneox");
    reveal_strlit("llama");
    reveal_strlit("mpt");
    reveal_strlit("");
    assert("gpt4"@[3] != "gpt2"@[3]);
    assert("gpt4"@[3] != "gptj"@[3]);
    assert("gpt2"@[3] != "gptj"@[3]);
    assert("bloom"@[0] != "llama"@[0]);
    assert("gpt4"@.len() == 4 && "gpt2"@.len() == 4 && "gptj"@.len() == 4);
    assert("gpt35turbo"@.len() == 10 && "gptneox"@.len() == 7 && "mpt"@.len() == 3);
    assert("bloom"@.len() == 5 && "llama"@.len() == 5 && ""@.len() == 0);
}

impl std::str::FromStr for AIModel {
    type Err = ();

    /// Reads `s` as `AIModel::parse` does.
    fn from_str(s: &str) -> (r: Result<AIModel, ()>)
        ensures
            r == parsed_lowercase(lowercase_of(s@)),
    {
        AIModel::parse(s)
    }
}

} // verus!
