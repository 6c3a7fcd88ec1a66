use kotomori::model::{Model, ModelError};

#[test]
fn errors_on_empty_name() {
  assert_eq!(
    "foo: ".parse::<Model>().unwrap_err().message(),
    "model name cannot be empty",
  );
}

#[test]
fn errors_on_empty_provider() {
  assert_eq!(
    ":foo".parse::<Model>().unwrap_err().message(),
    "model provider cannot be empty",
  );
}

#[test]
fn errors_on_missing_separator() {
  assert_eq!(
    "foo".parse::<Model>().unwrap_err().message(),
    "model must be PROVIDER:MODEL",
  );
}

#[test]
fn parses_provider_and_name() {
  assert_eq!(
    "foo:bar".parse::<Model>().unwrap(),
    Model {
      name: "bar".into(),
      provider: "foo".into(),
    },
  );
}

#[test]
fn preserves_colons_in_name() {
  assert_eq!(
    "foo:bar:baz".parse::<Model>().unwrap(),
    Model {
      name: "bar:baz".into(),
      provider: "foo".into(),
    },
  );
}

#[test]
fn trims_name() {
  assert_eq!(
    "foo: bar ".parse::<Model>().unwrap(),
    Model {
      name: "bar".into(),
      provider: "foo".into(),
    },
  );
}

#[test]
fn model_is_written_provider_first() {
  let model = Model::new(" foo ", "bar:baz").unwrap();
  assert_eq!(model.to_display_string(), "foo:bar:baz");
  assert_eq!(model.to_display_string().parse::<Model>().unwrap(), model);
}

#[test]
fn new_checks_the_provider_first() {
  assert_eq!(Model::new(" ", "").unwrap_err(), ModelError::EmptyProvider);
  assert_eq!(Model::new("foo", "\t").unwrap_err(), ModelError::EmptyName);
}

#[test]
fn default_model_is_the_local_mock() {
  assert_eq!(Model::default().to_display_string(), "mock:local");
}

#[test]
fn completion_requests_keep_model_and_messages() {
  let model = Model::new("foo", "bar").unwrap();
  let request = kotomori::completion_request::CompletionRequest::new(model.clone(), Vec::new());
  assert_eq!(request.model(), &model);
  assert!(request.messages().is_empty());
}

#[test]
fn unicode_whitespace_is_trimmed_around_both_parts() {
  let model = "\u{3000}foo\u{a0}:\u{2009}bar\u{85}".parse::<Model>().unwrap();
  assert_eq!(model.provider, "foo");
  assert_eq!(model.name, "bar");
}
