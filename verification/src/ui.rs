//! The questions a provider may ask its user, and the client trait that answers them.

use vstd::prelude::*;

verus! {

/// A rule an answer must satisfy, giving the reason when the answer is refused.
pub trait Validator<T> {
    /// `Ok` when `value` is acceptable, else the reason it is not.
    fn validate(&self, value: &T) -> Result<(), String>;
}

/// A yes/no question with a default answer.
pub struct BoolChoice {
    pub prompt: String,
    pub default: bool,
}

/// A free-text question, with an optional rule for its answer.
pub struct Input {
    pub prompt: String,
    pub validator: Option<Box<dyn Validator<String>>>,
}

/// A question whose answer is a `u16`, with an optional default and rule.
pub struct InputNumericu16 {
    pub prompt: String,
    pub validator: Option<Box<dyn Validator<u16>>>,
    pub default: Option<u16>,
}

/// A question for a secret, possibly asked twice for confirmation.
pub struct Password {
    pub prompt: String,
    pub confirm: bool,
}

/// Why a client could not answer a question.
#[derive(Debug)]
pub enum UiError {
    /// No free-text answer can be obtained for this prompt.
    InputUnavailable { prompt: String },
    /// No numeric answer can be obtained for this prompt and none was given by default.
    NumericInputUnavailable { prompt: String },
    /// No secret can be obtained for this prompt.
    PasswordUnavailable { prompt: String },
    /// Any other failure of a client, with its message.
    Failed { message: String },
}

impl UiError {
    /// The human-readable text of the error.
    pub open spec fn spec_message(&self) -> Seq<char> {
        match self {
            UiError::InputUnavailable { prompt } =>
                "Non-interactive mode: Cannot prompt for input: "@ + prompt@,
            UiError::NumericInputUnavailable { prompt } =>
                "Non-interactive mode: Cannot prompt for numeric input (and no default provided): "@
                    + prompt@,
            UiError::PasswordUnavailable { prompt } =>
                "Non-interactive mode: Cannot prompt for password: "@ + prompt@,
            UiError::Failed { message } => message@,
        }
    }

    /// Renders the error as text.
    pub fn message(&self) -> (r: String)
        ensures
            r@ == self.spec_message(),
    {
        match self {
            UiError::InputUnavailable { prompt } => {
                let mut s = String::from_str("Non-interactive mode: Cannot prompt for input: ");
                s.append(prompt.as_str());
                s
            },
            UiError::NumericInputUnavailable { prompt } => {
                let mut s = String::from_str(
                    "Non-interactive mode: Cannot prompt for numeric input (and no default provided): ",
                );
                s.append(prompt.as_str());
                s
            },
            UiError::PasswordUnavailable { prompt } => {
                let mut s = String::from_str("Non-interactive mode: Cannot prompt for password: ");
                s.append(prompt.as_str());
                s
            },
            UiError::Failed { message } => message.clone(),
        }
    }
}

/// A set of options the user picks one of, by index.
pub trait ConfigurationChoice {
    /// The question shown to the user.
    fn prompt(&self) -> String;

    /// The names of all options, in index order.
    fn all_names(&self) -> Vec<String>;

    /// The descriptions of all options, in index order, if there are any.
    fn all_descriptions(&self) -> Option<Vec<String>>;

    /// The description of this option, if there is one.
    fn description(&self) -> Option<String>;
}

/// Something that can answer a provider's questions.
pub trait UiClient {
    /// The index of the option chosen among `conf_choice.all_names()`.
    fn get_configuration_choice(&self, conf_choice: &dyn ConfigurationChoice) -> Result<usize, UiError>;

    /// The answer to a yes/no question.
    fn get_bool_choice(&self, bool_choice: BoolChoice) -> Result<bool, UiError>;

    /// The answer to a free-text question.
    fn get_input(&self, input: Input) -> Result<String, UiError>;

    /// The answer to a numeric question.
    fn get_input_numeric_u16(&self, input: InputNumericu16) -> Result<u16, UiError>;

    /// The answer to a secret question.
    fn get_password(&self, password: Password) -> Result<String, UiError>;

    /// Whether this client can ask a person.
    fn is_interactive(&self) -> bool;
}

} // verus!
