use std::str::FromStr;

use cim_web::model::configuration::AIModel;

#[test]
fn model_names_select_models() {
    assert_eq!(AIModel::from_str("gpt4"), Ok(AIModel::Gpt4));
    assert_eq!(AIModel::from_str("gpt35turbo"), Ok(AIModel::Gpt35Turbo));
    assert_eq!(AIModel::from_str("bloom"), Ok(AIModel::Bloom));
    assert_eq!(AIModel::from_str("gpt2"), Ok(AIModel::Gpt2));
    assert_eq!(AIModel::from_str("gptj"), Ok(AIModel::GptJ));
    assert_eq!(AIModel::from_str("gptneox"), Ok(AIModel::GptNeoX));
    assert_eq!(AIModel::from_str("llama"), Ok(AIModel::Llama));
    assert_eq!(AIModel::from_str("mpt"), Ok(AIModel::Mpt));
}

#[test]
fn model_names_ignore_case() {
    assert_eq!(AIModel::parse("GPT4"), Ok(AIModel::Gpt4));
    assert_eq!(AIModel::parse("Gpt35Turbo"), Ok(AIModel::Gpt35Turbo));
    assert_eq!("GptNeoX".parse::<AIModel>(), Ok(AIModel::GptNeoX));
    assert_eq!(AIModel::from_str("MPT"), Ok(AIModel::Mpt));
}

#[test]
fn empty_name_selects_default_model() {
    assert_eq!(AIModel::from_str(""), Ok(AIModel::Llama));
    assert_eq!(AIModel::from_str(""), Ok(AIModel::default()));
}

#[test]
fn unknown_name_is_refused() {
    assert_eq!(AIModel::from_str("gpt5"), Err(()));
    assert_eq!(AIModel::from_str(" llama"), Err(()));
    assert_eq!(AIModel::from_str("gpt-4"), Err(()));
}

#[test]
fn lowercase_names_are_read_as_they_stand() {
    assert_eq!(AIModel::from_lowercase("bloom"), Ok(AIModel::Bloom));
    assert_eq!(AIModel::from_lowercase(""), Ok(AIModel::Llama));
    assert_eq!(AIModel::from_lowercase("BLOOM"), Err(()));
}

#[test]
fn default_model_is_llama() {
    assert_eq!(AIModel::default(), AIModel::Llama);
}

#[test]
fn setting_selects_model_or_default() {
    assert_eq!(AIModel::from_setting(None), AIModel::Llama);
    assert_eq!(AIModel::from_setting(Some("")), AIModel::Llama);
    assert_eq!(AIModel::from_setting(Some("Bloom")), AIModel::Bloom);
    assert_eq!(AIModel::from_setting(Some("not a model")), AIModel::Llama);
}
