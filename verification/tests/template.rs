use commitfmt::tpl::{RenderNeed, Rendering, Segment, Template, TemplateError};

/// Renders a template whose variables are all among `vars`; commands are not run.
fn render_with(template: &Template, vars: &[(&str, &str)]) -> Result<String, TemplateError> {
    let mut r = Rendering::new();
    loop {
        match template.render_literals(&mut r) {
            None => return Ok(r.output()),
            Some(RenderNeed::Variable(name)) => {
                let local = vars.iter().find(|(k, _)| *k == name.as_str()).map(|(_, v)| *v);
                template.supply_variable(&mut r, local, None)?;
            }
            Some(RenderNeed::Command(_)) => panic!("no command expected"),
        }
    }
}

#[test]
fn test_parse_literal() {
    let template = Template::parse("hello world").unwrap();
    assert_eq!(template.segments_len(), 1);
    let segments: Vec<&Segment> = template.segments_iter().collect();
    assert_eq!(segments[0], &Segment::Literal("hello world".to_string()));
}

#[test]
fn test_parse_variable() {
    let template = Template::parse("Hello ${{ NAME }}").unwrap();
    assert_eq!(template.segments_len(), 2);
    let segments: Vec<&Segment> = template.segments_iter().collect();
    assert_eq!(segments[0], &Segment::Literal("Hello ".to_string()));
    assert_eq!(segments[1], &Segment::Variable("NAME".to_string()));
}

#[test]
fn test_parse_command() {
    let template = Template::parse("Date: {{ date }}").unwrap();
    assert_eq!(template.segments_len(), 2);
    let segments: Vec<&Segment> = template.segments_iter().collect();
    assert_eq!(segments[0], &Segment::Literal("Date: ".to_string()));
    assert_eq!(segments[1], &Segment::Command("date".to_string()));
}

#[test]
fn test_parse_mixed_template() {
    let template = Template::parse("Hello ${{ NAME }}, today is {{ date }}!").unwrap();
    assert_eq!(template.segments_len(), 5);
    let segments: Vec<&Segment> = template.segments_iter().collect();
    assert_eq!(segments[0], &Segment::Literal("Hello ".to_string()));
    assert_eq!(segments[1], &Segment::Variable("NAME".to_string()));
    assert_eq!(segments[2], &Segment::Literal(", today is ".to_string()));
    assert_eq!(segments[3], &Segment::Command("date".to_string()));
    assert_eq!(segments[4], &Segment::Literal("!".to_string()));
}

#[test]
fn test_parse_command_with_whitespace() {
    let template = Template::parse("{{   echo hello   }}").unwrap();
    assert_eq!(template.segments_len(), 1);
    let segments: Vec<&Segment> = template.segments_iter().collect();
    assert_eq!(segments[0], &Segment::Command("echo hello".to_string()));
}

#[test]
fn test_parse_variable_with_whitespace() {
    let template = Template::parse("${{   USER_NAME   }}").unwrap();
    assert_eq!(template.segments_len(), 1);
    let segments: Vec<&Segment> = template.segments_iter().collect();
    assert_eq!(segments[0], &Segment::Variable("USER_NAME".to_string()));
}

#[test]
fn test_parse_empty_string() {
    let template = Template::parse("").unwrap();
    assert_eq!(template.segments_len(), 0);
}

#[test]
fn test_parse_unclosed_variable() {
    let result = Template::parse("Hello ${{ NAME");
    assert!(result.is_err());
}

#[test]
fn test_parse_unclosed_command() {
    let result = Template::parse("Date: {{ date");
    assert!(result.is_err());
}

#[test]
fn parse_error_names_the_rest_of_the_input() {
    match Template::parse("Date: {{ date") {
        Err(TemplateError::ParseError(msg)) => assert_eq!(msg, "error IsNot at: {{ date"),
        other => panic!("unexpected {other:?}"),
    }
}

#[test]
fn empty_tag_bodies() {
    assert!(Template::parse("{{}}").is_err());
    assert!(Template::parse("{{ }}").is_err());
    let template = Template::parse("${{ }}").unwrap();
    let segments: Vec<&Segment> = template.segments_iter().collect();
    assert_eq!(segments[0], &Segment::Variable("".to_string()));
}

#[test]
fn test_render_literal() {
    let template = Template::parse("hello world").unwrap();
    assert_eq!(render_with(&template, &[]).unwrap(), "hello world");
}

#[test]
fn test_render_variable_from_locals() {
    let template = Template::parse("Hello ${{ NAME }}").unwrap();
    assert_eq!(render_with(&template, &[("NAME", "John")]).unwrap(), "Hello John");
}

#[test]
fn test_render_undefined_variable() {
    let template = Template::parse("Hello ${{ UNDEFINED }}").unwrap();
    match render_with(&template, &[]) {
        Err(TemplateError::UndefinedVariable(var)) => assert_eq!(var, "UNDEFINED"),
        _ => panic!("Expected UndefinedVariable error"),
    }
}

#[test]
fn test_multiple_consecutive_variables() {
    let template = Template::parse("${{ A }}${{ B }}${{ C }}").unwrap();
    let result = render_with(&template, &[("A", "1"), ("B", "2"), ("C", "3")]).unwrap();
    assert_eq!(result, "123");
}

#[test]
fn given_value_comes_before_the_environment() {
    let template = Template::parse("Value: ${{ V }}").unwrap();
    let mut r = Rendering::new();
    assert_eq!(template.render_literals(&mut r), Some(RenderNeed::Variable("V".to_string())));
    template.supply_variable(&mut r, Some("local_value"), Some("env_value")).unwrap();
    assert_eq!(template.render_literals(&mut r), None);
    assert_eq!(r.output(), "Value: local_value");

    let mut r = Rendering::new();
    template.render_literals(&mut r);
    template.supply_variable(&mut r, None, Some("env_value")).unwrap();
    template.render_literals(&mut r);
    assert_eq!(r.output(), "Value: env_value");
}

#[test]
fn command_output_is_inserted() {
    let template = Template::parse("Number: {{ echo 42 }}!").unwrap();
    let mut r = Rendering::new();
    assert_eq!(template.render_literals(&mut r), Some(RenderNeed::Command("echo 42".to_string())));
    template.supply_command(&mut r, "42\n");
    assert_eq!(template.render_literals(&mut r), None);
    assert_eq!(r.output(), "Number: 42\n!");
}

#[test]
fn command_success_inserts_output() {
    let template = Template::parse("Number: {{ echo 42 }}!").unwrap();
    let mut r = Rendering::new();
    template.render_literals(&mut r);
    assert!(template.supply_command_result(&mut r, Some(0), "42\n", "").is_ok());
    assert_eq!(template.render_literals(&mut r), None);
    assert_eq!(r.output(), "Number: 42\n!");
}

#[test]
fn failing_command_is_an_error() {
    let template = Template::parse("Number: {{ exit 3 }}!").unwrap();
    let mut r = Rendering::new();
    template.render_literals(&mut r);
    let result = template.supply_command_result(&mut r, Some(3), "partial", "boom");
    match result {
        Err(TemplateError::CommandExecutionFailed(code, err)) => {
            assert_eq!(code, 3);
            assert_eq!(err, "boom");
        }
        other => panic!("unexpected {:?}", other),
    }
    assert_eq!(r.output(), "Number: ");
}

#[test]
fn command_stopped_by_signal_is_an_error() {
    let template = Template::parse("{{ kill -9 $$ }}").unwrap();
    let mut r = Rendering::new();
    template.render_literals(&mut r);
    let result = template.supply_command_result(&mut r, None, "", "");
    assert!(matches!(result, Err(TemplateError::CommandExecutionFailed(-1, _))));
}

#[test]
fn render_with_prefers_locals_over_env() {
    let template = Template::parse("Value: ${{ MY_VAR }} and ${{ OTHER }}!").unwrap();
    let locals = vec![("MY_VAR".to_string(), "local_value".to_string())];
    let env = vec![
        ("MY_VAR".to_string(), "env_value".to_string()),
        ("OTHER".to_string(), "from_env".to_string()),
    ];
    assert_eq!(template.render_with(&locals, &env).unwrap(), "Value: local_value and from_env!");
}

#[test]
fn render_with_reports_first_undefined_variable() {
    let template = Template::parse("${{ A }}${{ B }}${{ C }}").unwrap();
    let locals = vec![("A".to_string(), "a".to_string())];
    match template.render_with(&locals, &Vec::new()) {
        Err(TemplateError::UndefinedVariable(name)) => assert_eq!(name, "B"),
        other => panic!("unexpected {:?}", other),
    }
    assert_eq!(Template::parse("plain").unwrap().render_with(&Vec::new(), &Vec::new()).unwrap(), "plain");
}
