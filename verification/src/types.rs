//! Shared vocabulary of the story and planning graphs: node kinds, states,
//! levels and the plain records that travel with them.
use vstd::prelude::*;

verus! {

/// The role a node plays in a story graph.
#[derive(Debug, Clone, Copy, PartialEq, Eq, Structural)]
pub enum NodeType {
    Start,
    Decision,
    Action,
    Outcome,
    Question,
    End,
}

/// Where the reader stands with respect to a node.
#[derive(Debug, Clone, Copy, PartialEq, Eq, Structural)]
pub enum NodeState {
    Unvisited,
    Current,
    Visited,
    Completed,
    Blocked,
}

/// Result of checking a node.
#[derive(Debug, Clone, Copy, PartialEq, Eq, Structural)]
pub enum ValidationStatus {
    Valid,
    Warning,
    Error,
    Pending,
}

/// How risky a choice is.
#[derive(Debug, Clone, Copy, PartialEq, Eq, Structural)]
pub enum RiskLevel {
    Low,
    Medium,
    High,
    Critical,
}

/// Experience of the team a plan is made for.
#[derive(Debug, Clone, Copy, PartialEq, Eq, Structural)]
pub enum ExperienceLevel {
    Beginner,
    Intermediate,
    Advanced,
    Expert,
}

/// Weight of a technical detail.
#[derive(Debug, Clone, Copy, PartialEq, Eq, Structural)]
pub enum ImportanceLevel {
    Low,
    Medium,
    High,
    Critical,
}

/// Kind of inconsistency found in a graph.
#[derive(Debug, Clone, Copy, PartialEq, Eq, Structural)]
pub enum CoherenceIssueType {
    LogicalInconsistency,
    DependencyConflict,
    TimelineConflict,
    ResourceConflict,
    NarrativeInconsistency,
}

/// How serious an inconsistency is.
#[derive(Debug, Clone, Copy, PartialEq, Eq, Structural)]
pub enum IssueSeverity {
    Info,
    Warning,
    Error,
    Critical,
}

/// The form of answer a clarification question expects.
#[derive(Debug, Clone, Copy, PartialEq, Eq, Structural)]
pub enum QuestionType {
    MultipleChoice,
    FreeText,
    NumericRange,
    Boolean,
    TechnicalSelection,
    PriorityRanking,
    ResourceAllocation,
    RiskAssessment,
}

/// A technical note attached to a node.
#[derive(Debug, Clone)]
pub struct TechnicalDetail {
    pub category: String,
    pub description: String,
    pub importance: ImportanceLevel,
}

/// What is known about how a node came to be.
#[derive(Debug, Clone)]
pub struct NodeMetadata {
    pub generated_by_ai: bool,
    pub validation_status: ValidationStatus,
    pub user_annotations: Vec<String>,
    pub technical_details: Vec<TechnicalDetail>,
}

/// The limits a plan is made under.
#[derive(Debug, Clone)]
pub struct ProjectConstraints {
    pub timeline: Option<String>,
    pub team_size: Option<u32>,
    pub experience_level: ExperienceLevel,
    pub budget: Option<String>,
    pub technical_constraints: Vec<String>,
    pub business_constraints: Vec<String>,
}

impl Default for ProjectConstraints {
    /// No timeline, team size or budget, an intermediate team and no
    /// constraints.
    fn default() -> (c: ProjectConstraints)
        ensures
            c.timeline is None,
            c.team_size is None,
            c.experience_level == ExperienceLevel::Intermediate,
            c.budget is None,
            c.technical_constraints@.len() == 0,
            c.business_constraints@.len() == 0,
    {
        ProjectConstraints {
            timeline: None,
            team_size: None,
            experience_level: ExperienceLevel::Intermediate,
            budget: None,
            technical_constraints: Vec::new(),
            business_constraints: Vec::new(),
        }
    }
}

/// Rules an answer to a question must follow.
#[derive(Debug, Clone)]
pub struct ValidationRules {
    pub required: bool,
    pub min_length: Option<u32>,
    pub max_length: Option<u32>,
    pub pattern: Option<String>,
    pub custom_validator: Option<String>,
}

impl Default for ValidationRules {
    /// Nothing required and no limits.
    fn default() -> (r: ValidationRules)
        ensures
            !r.required,
            r.min_length is None,
            r.max_length is None,
            r.pattern is None,
            r.custom_validator is None,
    {
        ValidationRules {
            required: false,
            min_length: None,
            max_length: None,
            pattern: None,
            custom_validator: None,
        }
    }
}

} // verus!
