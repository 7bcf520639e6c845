//! Loading a saved model.
//!
//! A saved model is two artifacts: the weights, and a companion record of
//! the statistics that the weights were trained against. The weights are
//! useless without the record, and wrong with another one, so the two are
//! loaded together or not at all. Reading the artifacts from storage is the
//! caller's part; what it found is judged here.

use vstd::prelude::*;
use crate::training::ModelConfig;

verus! {

/// What the caller found of one artifact.
#[derive(Debug)]
pub enum Artifact<T> {
    /// There is no such artifact.
    Absent,
    /// The artifact is there but could not be read or understood.
    Unreadable,
    /// The artifact, as read.
    Present(T),
}

/// Why a saved model was not loaded.
#[derive(Clone, Copy, Debug, PartialEq, Eq, Structural)]
pub enum LoadError {
    /// The companion record of the statistics is absent.
    MissingConfig,
    /// The companion record could not be read or is malformed.
    UnreadableConfig,
    /// The weights are absent.
    MissingWeights,
    /// The weights could not be read or are malformed.
    UnreadableWeights,
}

/// A model as loaded: the weights together with the statistics they were
/// trained against.
#[derive(Debug)]
pub struct SavedModel<W> {
    pub weights: W,
    pub config: ModelConfig,
}

impl LoadError {
    /// What went wrong, in words.
    pub fn message(&self) -> (text: &'static str)
        ensures
            text@ == match *self {
                LoadError::MissingConfig => "the record of the normalization statistics is missing"@,
                LoadError::UnreadableConfig => "the record of the normalization statistics cannot be read"@,
                LoadError::MissingWeights => "the model weights are missing"@,
                LoadError::UnreadableWeights => "the model weights cannot be read"@,
            },
    {
        match self {
            LoadError::MissingConfig => "the record of the normalization statistics is missing",
            LoadError::UnreadableConfig => "the record of the normalization statistics cannot be read",
            LoadError::MissingWeights => "the model weights are missing",
            LoadError::UnreadableWeights => "the model weights cannot be read",
        }
    }
}

/// Loads a saved model from its two artifacts, as one operation.
///
/// The companion record is judged first: without it nothing is loaded,
/// whatever there is of the weights. Then the weights are judged. Only where
/// both artifacts are present does the load succeed, and then it hands them
/// back together.
pub fn load_model_with_config<W>(weights: Artifact<W>, config: Artifact<ModelConfig>) -> (result: Result<
    SavedModel<W>,
    LoadError,
>)
    ensures
        config is Absent ==> result == Err::<SavedModel<W>, LoadError>(LoadError::MissingConfig),
        config is Unreadable ==> result == Err::<SavedModel<W>, LoadError>(LoadError::UnreadableConfig),
        config is Present && weights is Absent ==> result == Err::<SavedModel<W>, LoadError>(
            LoadError::MissingWeights,
        ),
        config is Present && weights is Unreadable ==> result == Err::<SavedModel<W>, LoadError>(
            LoadError::UnreadableWeights,
        ),
        config is Present && weights is Present ==> (result matches Ok(model) && model.weights
            == weights->Present_0 && model.config == config->Present_0),
{
    let statistics = match config {
        Artifact::Absent => {
            return Err(LoadError::MissingConfig);
        },
        Artifact::Unreadable => {
            return Err(LoadError::UnreadableConfig);
        },
        Artifact::Present(statistics) => statistics,
    };
    match weights {
        Artifact::Absent => Err(LoadError::MissingWeights),
        Artifact::Unreadable => Err(LoadError::UnreadableWeights),
        Artifact::Present(weights) => Ok(SavedModel { weights, config: statistics }),
    }
}

} // verus!
