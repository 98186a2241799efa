//! What the makers of embeddings are configured with.

use vstd::prelude::*;
use crate::strings::labelled;

verus! {

/// Why an embedding could not be made.
#[derive(Debug)]
pub enum EmbeddingError {
    /// The model could not be set up.
    InitializationError(String),
    /// The model failed on a text.
    GenerationError(String),
    /// The text is not acceptable.
    InvalidInputError(String),
}

impl EmbeddingError {
    /// The error in words.
    pub open spec fn text(self) -> Seq<char> {
        match self {
            EmbeddingError::InitializationError(message) => {
                "Failed to initialize embedding model: "@ + message@
            },
            EmbeddingError::GenerationError(message) => "Failed to generate embedding: "@
                + message@,
            EmbeddingError::InvalidInputError(message) => "Invalid input: "@ + message@,
        }
    }

    /// The error in words.
    pub fn describe(&self) -> (text: String)
        ensures
            text@ == self.text(),
    {
        match self {
            EmbeddingError::InitializationError(message) => labelled(
                "Failed to initialize embedding model: ",
                message.as_str(),
            ),
            EmbeddingError::GenerationError(message) => labelled(
                "Failed to generate embedding: ",
                message.as_str(),
            ),
            EmbeddingError::InvalidInputError(message) => labelled(
                "Invalid input: ",
                message.as_str(),
            ),
        }
    }
}

/// The models that make embeddings.
#[derive(Debug, Clone, Copy, PartialEq, Eq, Structural)]
pub enum EmbeddingModelType {
    /// The base model.
    Bert,
    /// A smaller and faster model.
    DistilBert,
    /// A very small and fast model.
    MiniLM,
    /// A model of high quality.
    MPNet,
}

/// How embeddings are made.
#[derive(Debug)]
pub struct EmbeddingConfig {
    /// The model to use.
    pub model_type: EmbeddingModelType,
    /// Where the model's files are, if they are at hand.
    pub model_path: Option<String>,
    /// Whether to compute on a graphics processor.
    pub use_gpu: bool,
    /// The number of components of an embedding.
    pub embedding_dim: usize,
}

impl Default for EmbeddingConfig {
    fn default() -> (config: EmbeddingConfig)
        ensures
            config.model_type == EmbeddingModelType::MiniLM,
            config.model_path is None,
            !config.use_gpu,
            config.embedding_dim == 384,
    {
        EmbeddingConfig {
            model_type: EmbeddingModelType::MiniLM,
            model_path: None,
            use_gpu: false,
            embedding_dim: 384,
        }
    }
}

/// A stand-in for a maker of embeddings, of a given number of components.
#[derive(Debug)]
pub struct MockEmbeddingGenerator {
    embedding_dim: usize,
}

impl MockEmbeddingGenerator {
    /// The number of components of its embeddings.
    pub closed spec fn dimension(&self) -> usize {
        self.embedding_dim
    }

    /// A stand-in whose embeddings have `embedding_dim` components.
    pub fn new(embedding_dim: usize) -> (generator: MockEmbeddingGenerator)
        ensures
            generator.dimension() == embedding_dim,
    {
        MockEmbeddingGenerator { embedding_dim }
    }

    /// The number of components of its embeddings.
    pub fn embedding_dim(&self) -> (dim: usize)
        ensures
            dim == self.dimension(),
    {
        self.embedding_dim
    }
}

} // verus!
