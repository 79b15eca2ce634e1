use std::fmt::Display;

use vopono_nordvpn::{
    BoolChoice, ConfigurationChoice, Input, InputNumericu16, NonInteractiveUiClient, Password,
    UiClient,
};

// Mock ConfigurationChoice enum for testing
#[derive(Debug)]
enum MockConfigChoice {
    OptionA,
    OptionB,
    OptionC,
}

impl MockConfigChoice {
    fn iter() -> impl Iterator<Item = MockConfigChoice> {
        vec![
            MockConfigChoice::OptionA,
            MockConfigChoice::OptionB,
            MockConfigChoice::OptionC,
        ]
        .into_iter()
    }
}

impl Display for MockConfigChoice {
    fn fmt(&self, f: &mut std::fmt::Formatter<'_>) -> std::fmt::Result {
        f.write_str(&format!("{:?}", self))
    }
}

impl ConfigurationChoice for MockConfigChoice {
    fn prompt(&self) -> String {
        "Test prompt".to_string()
    }
    fn all_names(&self) -> Vec<String> {
        Self::iter().map(|x| format!("{x}")).collect()
    }
    fn all_descriptions(&self) -> Option<Vec<String>> {
        None
    }
    fn description(&self) -> Option<String> {
        None
    }
}

impl Default for MockConfigChoice {
    fn default() -> Self {
        Self::OptionA
    }
}

#[test]
fn test_get_configuration_choice() {
    let client = NonInteractiveUiClient;
    let choice = MockConfigChoice::default();
    assert_eq!(client.get_configuration_choice(&choice).unwrap(), 0);
}

#[test]
fn test_get_bool_choice_true() {
    let client = NonInteractiveUiClient;
    let bool_choice = BoolChoice {
        prompt: "Test bool".to_string(),
        default: true,
    };
    assert_eq!(client.get_bool_choice(bool_choice).unwrap(), true);
}

#[test]
fn test_get_bool_choice_false() {
    let client = NonInteractiveUiClient;
    let bool_choice = BoolChoice {
        prompt: "Test bool".to_string(),
        default: false,
    };
    assert_eq!(client.get_bool_choice(bool_choice).unwrap(), false);
}

#[test]
fn test_get_input_returns_error() {
    let client = NonInteractiveUiClient;
    let input = Input {
        prompt: "Test input".to_string(),
        validator: None,
    };
    assert!(client.get_input(input).is_err());
}

#[test]
fn test_get_input_numeric_u16_with_default() {
    let client = NonInteractiveUiClient;
    let input_numeric = InputNumericu16 {
        prompt: "Test numeric input".to_string(),
        validator: None,
        default: Some(123),
    };
    assert_eq!(client.get_input_numeric_u16(input_numeric).unwrap(), 123);
}

#[test]
fn test_get_input_numeric_u16_without_default_returns_error() {
    let client = NonInteractiveUiClient;
    let input_numeric = InputNumericu16 {
        prompt: "Test numeric input".to_string(),
        validator: None,
        default: None,
    };
    assert!(client.get_input_numeric_u16(input_numeric).is_err());
}

#[test]
fn test_get_password_returns_error() {
    let client = NonInteractiveUiClient;
    let password = Password {
        prompt: "Test password".to_string(),
        confirm: false,
    };
    assert!(client.get_password(password).is_err());
}

#[test]
fn test_is_interactive_returns_false() {
    let client = NonInteractiveUiClient;
    assert_eq!(client.is_interactive(), false);
}

// Further cases of the non-interactive client.

#[test]
fn non_interactive_error_messages_name_the_prompt() {
    let client = NonInteractiveUiClient;
    let err = client
        .get_input(Input { prompt: "Name".to_string(), validator: None })
        .err()
        .unwrap();
    assert_eq!(err.message(), "Non-interactive mode: Cannot prompt for input: Name");
    let err = client
        .get_input_numeric_u16(InputNumericu16 {
            prompt: "Port".to_string(),
            validator: None,
            default: None,
        })
        .err()
        .unwrap();
    assert_eq!(
        err.message(),
        "Non-interactive mode: Cannot prompt for numeric input (and no default provided): Port"
    );
    let err = client
        .get_password(Password { prompt: "Secret".to_string(), confirm: true })
        .err()
        .unwrap();
    assert_eq!(err.message(), "Non-interactive mode: Cannot prompt for password: Secret");
}

#[test]
fn non_interactive_numeric_default_zero_and_max() {
    let client = NonInteractiveUiClient;
    for d in [0u16, 1, u16::MAX] {
        let input = InputNumericu16 { prompt: String::new(), validator: None, default: Some(d) };
        assert_eq!(client.get_input_numeric_u16(input).unwrap(), d);
    }
}

#[test]
fn non_interactive_picks_first_option_of_config_types() {
    let client = NonInteractiveUiClient;
    let choice = vopono_nordvpn::ConfigType::Udp;
    assert_eq!(client.get_configuration_choice(&choice).unwrap(), 0);
}
