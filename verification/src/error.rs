//! The ways in which an operation of the engine is refused.
use vstd::prelude::*;

verus! {

/// Why an operation was refused. A refused operation leaves the store as it
/// was.
#[derive(Clone, Copy, Debug, PartialEq, Eq)]
pub enum EngineError {
    /// A position of the payload lies outside the 32-bit signed range.
    PositionOutOfRange { position: i64 },
    /// The lesson does not belong to the module, or the module not to the
    /// course, or one of them does not exist.
    ParentMismatch,
    /// The learner has not completed every lesson of the module, or the
    /// module has no lesson.
    NotAllLessonsCompleted,
    /// The learner has not completed every module of the course, or the
    /// course has no module.
    NotAllModulesCompleted,
    /// What was asked about does not exist.
    NotFound,
    /// The storage could not take the write.
    StorageFailure,
}

/// The classes of refusal that a caller has to tell apart.
#[derive(Clone, Copy, Debug, PartialEq, Eq)]
pub enum ErrorClass {
    /// The request itself is at fault; sending it again will not help.
    Input,
    /// Nothing is recorded under the ids that were asked about.
    NotFound,
    /// The fault lies with the storage.
    Storage,
}

impl EngineError {
    pub open spec fn class_of(self) -> ErrorClass {
        match self {
            EngineError::PositionOutOfRange { .. } => ErrorClass::Input,
            EngineError::ParentMismatch => ErrorClass::Input,
            EngineError::NotAllLessonsCompleted => ErrorClass::Input,
            EngineError::NotAllModulesCompleted => ErrorClass::Input,
            EngineError::NotFound => ErrorClass::NotFound,
            EngineError::StorageFailure => ErrorClass::Storage,
        }
    }

    /// The class of the refusal.
    pub fn class(&self) -> (class: ErrorClass)
        ensures
            class == self.class_of(),
    {
        match self {
            EngineError::PositionOutOfRange { .. } => ErrorClass::Input,
            EngineError::ParentMismatch => ErrorClass::Input,
            EngineError::NotAllLessonsCompleted => ErrorClass::Input,
            EngineError::NotAllModulesCompleted => ErrorClass::Input,
            EngineError::NotFound => ErrorClass::NotFound,
            EngineError::StorageFailure => ErrorClass::Storage,
        }
    }
}

} // verus!
