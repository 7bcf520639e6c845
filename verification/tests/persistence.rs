use quark_sim::fixed::Fixed;
use quark_sim::persistence::load_model_with_config;
use quark_sim::persistence::Artifact;
use quark_sim::persistence::LoadError;
use quark_sim::training::ModelConfig;

fn config() -> ModelConfig {
    ModelConfig { target_mean: Fixed::from_raw(398_766), target_std: Fixed::from_raw(536_576) }
}

#[test]
fn saved_model_loads_with_both_artifacts() {
    let model = load_model_with_config(Artifact::Present(vec![1u8, 2, 3]), Artifact::Present(config())).unwrap();
    assert_eq!(model.weights, vec![1u8, 2, 3]);
    assert_eq!(model.config, config());
}

#[test]
fn load_fails_without_the_companion_record() {
    let weights = Artifact::Present(vec![1u8]);
    assert_eq!(load_model_with_config(weights, Artifact::Absent).err(), Some(LoadError::MissingConfig));
    // the record is judged first, whatever there is of the weights
    assert_eq!(
        load_model_with_config(Artifact::<Vec<u8>>::Absent, Artifact::Absent).err(),
        Some(LoadError::MissingConfig)
    );
    assert_eq!(
        load_model_with_config(Artifact::<Vec<u8>>::Unreadable, Artifact::Absent).err(),
        Some(LoadError::MissingConfig)
    );
}

#[test]
fn load_fails_on_a_malformed_companion_record() {
    let weights = Artifact::Present(vec![1u8]);
    assert_eq!(
        load_model_with_config(weights, Artifact::Unreadable).err(),
        Some(LoadError::UnreadableConfig)
    );
}

#[test]
fn load_fails_without_the_weights() {
    assert_eq!(
        load_model_with_config(Artifact::<Vec<u8>>::Absent, Artifact::Present(config())).err(),
        Some(LoadError::MissingWeights)
    );
    assert_eq!(
        load_model_with_config(Artifact::<Vec<u8>>::Unreadable, Artifact::Present(config())).err(),
        Some(LoadError::UnreadableWeights)
    );
}

#[test]
fn load_errors_are_described() {
    assert_eq!(LoadError::MissingConfig.message(), "the record of the normalization statistics is missing");
    assert_eq!(
        LoadError::UnreadableConfig.message(),
        "the record of the normalization statistics cannot be read"
    );
    assert_eq!(LoadError::MissingWeights.message(), "the model weights are missing");
    assert_eq!(LoadError::UnreadableWeights.message(), "the model weights cannot be read");
}
