//! A client that never asks anyone: it answers from defaults or fails.

use vstd::prelude::*;

use crate::ui::{BoolChoice, ConfigurationChoice, Input, InputNumericu16, Password, UiClient, UiError};

verus! {

/// Answers every question without a person: the first option, the default, or an error.
pub struct NonInteractiveUiClient;

impl UiClient for NonInteractiveUiClient {
    /// Always picks the first option (index 0), taken to be a sensible default.
    fn get_configuration_choice(&self, _conf_choice: &dyn ConfigurationChoice) -> (r: Result<usize, UiError>)
        ensures
            r == Ok::<usize, UiError>(0),
    {
        Ok(0)
    }

    /// Always answers with the question's default.
    fn get_bool_choice(&self, bool_choice: BoolChoice) -> (r: Result<bool, UiError>)
        ensures
            r == Ok::<bool, UiError>(bool_choice.default),
    {
        Ok(bool_choice.default)
    }

    /// Always fails: free text cannot be obtained without a person.
    fn get_input(&self, input: Input) -> (r: Result<String, UiError>)
        ensures
            r matches Err(UiError::InputUnavailable { prompt }) && prompt == input.prompt,
    {
        Err(UiError::InputUnavailable { prompt: input.prompt })
    }

    /// Answers with the default where there is one, and fails otherwise.
    fn get_input_numeric_u16(&self, input: InputNumericu16) -> (r: Result<u16, UiError>)
        ensures
            match input.default {
                Some(d) => r == Ok::<u16, UiError>(d),
                None => r matches Err(UiError::NumericInputUnavailable { prompt })
                    && prompt == input.prompt,
            },
    {
        match input.default {
            Some(default_value) => Ok(default_value),
            None => Err(UiError::NumericInputUnavailable { prompt: input.prompt }),
        }
    }

    /// Always fails: a secret cannot be obtained without a person.
    fn get_password(&self, password: Password) -> (r: Result<String, UiError>)
        ensures
            r matches Err(UiError::PasswordUnavailable { prompt }) && prompt == password.prompt,
    {
        Err(UiError::PasswordUnavailable { prompt: password.prompt })
    }

    /// Never interactive.
    fn is_interactive(&self) -> (r: bool)
        ensures
            !r,
    {
        false
    }
}

} // verus!
