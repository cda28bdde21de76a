use todo_store::codec::ParseError;
use todo_store::pipeline::{init_allowed, CommandProcessor, PipelineError, TemplateVars};
use todo_store::records::{FrontMatter, Timestamp};
use todo_store::store::Collection;

fn processor() -> CommandProcessor {
    CommandProcessor::new(Collection::new(), "/data".to_string())
}

#[test]
fn template_vars_start_empty() {
    let v = TemplateVars::new(3);
    assert_eq!(v.id, 3);
    assert!(v.tags.is_empty());
    assert!(v.title.is_none());
    assert!(v.created_at.secs > 1_600_000_000);
    assert!(v.created_at.nanos < 1_000_000_000);
}

#[test]
fn next_data_id_of_new_processor() {
    let p = processor();
    assert_eq!(p.next_data_id(), Some(1));
    assert_eq!(p.data_dir, "/data");
}

#[test]
fn valid_template_output_becomes_record() {
    let p = processor();
    let rendered = "+++\nid = 42\ncreated_at = \"2024-01-01T00:00:00Z\"\ntags = [ \"errand\" ]\n+++\n\n# Buy milk\n\n";
    let frame = p.frame_rendered("task", Ok(rendered.to_string())).unwrap();
    assert_eq!(frame.body, "\n# Buy milk\n\n");
    let fm = FrontMatter {
        id: 42,
        created_at: Timestamp { secs: 1_704_067_200, nanos: 0 },
        due_at: None,
        tags: vec!["errand".to_string()],
    };
    let file = p.new_todo_from_template("task", frame, Ok(fm)).unwrap();
    assert_eq!(file.data.front_matter.id, 42);
    assert_eq!(file.data.front_matter.tags, vec!["errand".to_string()]);
    assert_eq!(file.path, "tasks/0000000042.todo.md");
    assert_eq!(file.data.content, "\n# Buy milk\n\n");
}

#[test]
fn template_without_second_delimiter_is_named() {
    let p = processor();
    let r = p.frame_rendered("broken", Ok("+++\nid = 1\n# no closing line\n".to_string()));
    assert_eq!(
        r.unwrap_err(),
        PipelineError::InvalidTemplate { name: "broken".to_string(), cause: ParseError::Format }
    );
}

#[test]
fn template_with_bad_front_matter_is_named() {
    let p = processor();
    let frame = p.frame_rendered("task", Ok("+++\nid = \"x\"\n+++\n".to_string())).unwrap();
    let r = p.new_todo_from_template("task", frame, Err("invalid type".to_string()));
    assert_eq!(
        r.unwrap_err(),
        PipelineError::InvalidTemplate {
            name: "task".to_string(),
            cause: ParseError::Schema("invalid type".to_string())
        }
    );
}

#[test]
fn render_failure_is_template_error() {
    let p = processor();
    let r = p.frame_rendered("missing", Err("template not found".to_string()));
    assert_eq!(r.unwrap_err(), PipelineError::Template("template not found".to_string()));
}

#[test]
fn init_only_on_a_fresh_root() {
    assert!(init_allowed(false, false));
    assert!(!init_allowed(true, false));
    assert!(!init_allowed(false, true));
    assert!(!init_allowed(true, true));
}
