use triage_exec::config::{Config, SearchConfig, SectionConfig, TypeConfig, TypeExec, TypeTasks};
use triage_exec::config::{expand_output_filename, local_timestamp, stamp_or_fallback};
use triage_exec::execute::{get_bin, resolve_payload, run, run_internal, Action, Collector, EntryRun, Event, ExecError, Phase};
use triage_exec::schedule::visit_order;
use triage_exec::text::{replace_text, text_eq};

fn entry(name: &str) -> SearchConfig {
    SearchConfig {
        dir_path: None,
        name: Some(name.to_string()),
        output_file: Some(format!("out/{}.txt", name)),
        args: None,
        objects: None,
        max_size: None,
        encrypt: None,
        kind: None,
        exec_type: Some(TypeExec::System),
    }
}

fn section(priority: u8, cats: Vec<(&str, Vec<&str>)>) -> SectionConfig {
    SectionConfig {
        priority,
        kind: TypeTasks::Execute,
        entries: cats
            .into_iter()
            .map(|(c, names)| (c.to_string(), names.into_iter().map(entry).collect()))
            .collect(),
    }
}

fn two_section_config() -> Config {
    Config {
        tasks: vec![
            ("network".to_string(), section(2, vec![("ports", vec!["netstat", "tcpvcon"])])),
            ("process".to_string(), section(1, vec![("procs", vec!["pslist", "handle", "listdlls"])])),
        ],
        output_filename: "triage_{{hostname}}_{{datetime}}.zip".to_string(),
    }
}

fn start(name: &str, args: &[&str], exec_type: TypeExec, bytes: Option<Vec<u8>>, dir: Option<&str>, out: &str) -> (EntryRun, Action) {
    run(
        name.to_string(),
        args.iter().map(|a| a.to_string()).collect(),
        exec_type,
        bytes,
        dir.map(|d| d.to_string()),
        out.to_string(),
    )
}

#[test]
fn tag_names_round_trip() {
    for t in [TypeExec::External, TypeExec::Internal, TypeExec::System] {
        assert_eq!(TypeExec::from_name(t.as_name()), Some(t));
    }
    for t in [TypeTasks::Execute, TypeTasks::Collect] {
        assert_eq!(TypeTasks::from_name(t.as_name()), Some(t));
    }
    for t in [TypeConfig::String, TypeConfig::Glob, TypeConfig::Regex] {
        assert_eq!(TypeConfig::from_name(t.as_name()), Some(t));
    }
    assert_eq!(TypeExec::as_name(&TypeExec::External), "external");
    assert_eq!(TypeExec::from_name("External"), None);
    assert_eq!(TypeTasks::from_name("run"), None);
    assert_eq!(TypeConfig::from_name(""), None);
}

#[test]
fn text_helpers() {
    assert!(text_eq("abc", "abc"));
    assert!(!text_eq("abc", "abd"));
    assert!(!text_eq("abc", "ab"));
    assert_eq!(replace_text("a{{x}}b{{x}}", "{{x}}", "Z"), "aZbZ");
    assert_eq!(replace_text("aaa", "aa", "b"), "ba");
    assert_eq!(replace_text("", "aa", "b"), "");
}

#[test]
fn output_filename_tokens() {
    let r = expand_output_filename("triage_{{hostname}}_{{datetime}}.zip", Some("WS01".to_string()), "2024-05-06_07-08-09");
    assert_eq!(r, "triage_WS01_2024-05-06_07-08-09.zip");
    let r = expand_output_filename("{{hostname}}-{{other}}", None, "x");
    assert_eq!(r, "machine-{{other}}");
}

#[test]
fn output_filename_without_tokens_is_kept() {
    let mut c = two_section_config();
    c.output_filename = "fixed.zip".to_string();
    assert_eq!(c.get_output_filename(), "fixed.zip");
    c.output_filename = "{{hostname}}.zip".to_string();
    let name = c.get_output_filename();
    assert!(name.ends_with(".zip"));
    assert!(!name.contains("{{hostname}}"));
}

#[test]
fn lower_priority_section_first() {
    let c = two_section_config();
    let tasks = c.get_tasks();
    let names: Vec<&str> = tasks.iter().map(|(n, _)| n.as_str()).collect();
    assert_eq!(names, vec!["process", "network"]);
    assert_eq!(tasks[0].1.entries[0].1.len(), 3);
    assert_eq!(tasks[0].1.entries[0].1[1].name.as_deref(), Some("handle"));
}

#[test]
fn equal_priorities_keep_manifest_order() {
    let c = Config {
        tasks: vec![
            ("b".to_string(), section(3, vec![])),
            ("a".to_string(), section(0, vec![])),
            ("c".to_string(), section(3, vec![])),
            ("d".to_string(), section(255, vec![])),
        ],
        output_filename: String::new(),
    };
    let names: Vec<String> = c.get_tasks().into_iter().map(|(n, _)| n).collect();
    assert_eq!(names, vec!["a", "b", "c", "d"]);
}

#[test]
fn process_entries_run_before_network_entries() {
    let c = two_section_config();
    let tasks = c.get_tasks();
    let order = visit_order(&tasks);
    assert_eq!(order, vec![(0, 0, 0), (0, 0, 1), (0, 0, 2), (1, 0, 0), (1, 0, 1)]);
    let visited: Vec<String> = order
        .iter()
        .map(|&(s, k, e)| tasks[s].1.entries[k].1[e].name.clone().unwrap())
        .collect();
    assert_eq!(visited, vec!["pslist", "handle", "listdlls", "netstat", "tcpvcon"]);
}

#[test]
fn entries_counted() {
    assert_eq!(two_section_config().tasks_entries_len(), 5);
    let empty = Config { tasks: vec![], output_filename: String::new() };
    assert_eq!(empty.tasks_entries_len(), 0);
    assert!(visit_order(&empty.get_tasks()).is_empty());
}

#[test]
fn dir_path_or_empty() {
    let mut e = entry("x");
    assert_eq!(e.get_dir_path(), "");
    e.dir_path = Some("%SystemRoot%\\Prefetch".to_string());
    assert_eq!(e.get_dir_path(), "%SystemRoot%\\Prefetch");
}

#[test]
fn payload_lookup() {
    let table = vec![
        ("pslist.exe".to_string(), vec![1u8, 2, 3]),
        ("handle.exe".to_string(), vec![9u8]),
        ("pslist.exe".to_string(), vec![7u8]),
    ];
    assert_eq!(get_bin(&"pslist.exe".to_string(), &table), Ok(vec![1, 2, 3]));
    assert_eq!(get_bin(&"handle.exe".to_string(), &table), Ok(vec![9]));
    assert_eq!(get_bin(&"nope.exe".to_string(), &table), Err(ExecError::PayloadNotFound));
    assert_eq!(get_bin(&"x".to_string(), &vec![]), Err(ExecError::PayloadNotFound));
}

#[test]
fn internal_collectors() {
    assert_eq!(run_internal("ProcInfo", "o.txt"), Ok((Collector::ProcInfo, "o.txt".to_string())));
    assert_eq!(run_internal("PortsInfo", "p"), Ok((Collector::PortsInfo, "p".to_string())));
    assert_eq!(run_internal("ProcDetailsInfo", "d"), Ok((Collector::ProcDetailsInfo, "d".to_string())));
    assert_eq!(run_internal("procinfo", "o.txt"), Err(ExecError::CollectorNotFound));
}

#[test]
fn external_entry_stages_runs_saves_and_removes() {
    let (mut st, a) = start("pslist.exe", &["-accepteula"], TypeExec::External, Some(vec![0x4d, 0x5a]), Some("tmp"), "out/pslist.txt");
    assert_eq!(a, Action::Stage { path: "tmp/pslist.exe".to_string(), bytes: vec![0x4d, 0x5a] });
    let ev = Event::Staged { created: true, written: true };
    assert!(st.accepts(&ev));
    let a = st.step(ev);
    assert_eq!(a, Action::Spawn { program: "tmp/pslist.exe".to_string(), args: vec!["-accepteula".to_string()] });
    let a = st.step(Event::Exited { code: Some(3), stdout: b"Name Pid\n".to_vec() });
    assert_eq!(a, Action::Save { path: "out/pslist.txt".to_string(), bytes: b"Name Pid\n".to_vec() });
    let a = st.step(Event::Saved { ok: true });
    assert_eq!(a, Action::Remove { path: "tmp/pslist.exe".to_string() });
    let a = st.step(Event::Removed { ok: true });
    assert_eq!(a, Action::Finish { result: Ok(()), cleanup_failed: false });
    assert_eq!(st.phase, Phase::Finished);
    assert!(!st.accepts(&Event::Collected));
}

#[test]
fn external_entry_removes_after_spawn_failure() {
    let (mut st, _) = start("tool.exe", &[], TypeExec::External, Some(vec![1]), Some("stage/"), "o.txt");
    assert_eq!(st.program, "stage/tool.exe");
    st.step(Event::Staged { created: true, written: true });
    let a = st.step(Event::SpawnFailed);
    assert_eq!(a, Action::Remove { path: "stage/tool.exe".to_string() });
    let a = st.step(Event::Removed { ok: true });
    assert_eq!(a, Action::Finish { result: Err(ExecError::SpawnFailed), cleanup_failed: false });
}

#[test]
fn external_entry_wait_failure_and_partial_stage() {
    let (mut st, _) = start("t.exe", &[], TypeExec::External, Some(vec![1]), Some(""), "o.txt");
    assert_eq!(st.program, "t.exe");
    st.step(Event::Staged { created: true, written: true });
    assert_eq!(st.step(Event::WaitFailed), Action::Remove { path: "t.exe".to_string() });
    assert_eq!(st.step(Event::Removed { ok: true }), Action::Finish { result: Err(ExecError::ProcessWaitFailed), cleanup_failed: false });

    let (mut st, _) = start("t.exe", &[], TypeExec::External, Some(vec![1]), Some("d"), "o.txt");
    assert_eq!(st.step(Event::Staged { created: true, written: false }), Action::Remove { path: "d/t.exe".to_string() });
    assert_eq!(st.step(Event::Removed { ok: true }), Action::Finish { result: Err(ExecError::StagingFailed), cleanup_failed: false });

    let (mut st, _) = start("t.exe", &[], TypeExec::External, Some(vec![1]), Some("d"), "o.txt");
    assert_eq!(st.step(Event::Staged { created: false, written: false }), Action::Finish { result: Err(ExecError::StagingFailed), cleanup_failed: false });
}

#[test]
fn cleanup_failure_does_not_fail_entry() {
    let (mut st, _) = start("t.exe", &[], TypeExec::External, Some(vec![1]), Some("d"), "o.txt");
    st.step(Event::Staged { created: true, written: true });
    st.step(Event::Exited { code: None, stdout: vec![] });
    st.step(Event::Saved { ok: true });
    assert_eq!(st.step(Event::Removed { ok: false }), Action::Finish { result: Ok(()), cleanup_failed: true });
}

#[test]
fn output_write_failure_still_removes_temp() {
    let (mut st, _) = start("t.exe", &[], TypeExec::External, Some(vec![1]), Some("d"), "o.txt");
    st.step(Event::Staged { created: true, written: true });
    st.step(Event::Exited { code: Some(0), stdout: vec![5] });
    assert_eq!(st.step(Event::Saved { ok: false }), Action::Remove { path: "d/t.exe".to_string() });
    assert_eq!(st.step(Event::Removed { ok: true }), Action::Finish { result: Err(ExecError::OutputWriteFailed), cleanup_failed: false });
}

#[test]
fn missing_payload_or_staging_dir_does_nothing() {
    let (st, a) = start("pslist.exe", &[], TypeExec::External, None, Some("tmp"), "o.txt");
    assert_eq!(a, Action::Finish { result: Err(ExecError::PayloadNotFound), cleanup_failed: false });
    assert_eq!(st.phase, Phase::Finished);
    let (_, a) = start("pslist.exe", &[], TypeExec::External, Some(vec![1]), None, "o.txt");
    assert_eq!(a, Action::Finish { result: Err(ExecError::StagingPathMissing), cleanup_failed: false });
}

#[test]
fn system_entry_spawns_name_and_never_stages() {
    let (mut st, a) = start("ipconfig", &["/all"], TypeExec::System, None, Some("tmp"), "net.txt");
    assert_eq!(a, Action::Spawn { program: "ipconfig".to_string(), args: vec!["/all".to_string()] });
    let a = st.step(Event::Exited { code: Some(0), stdout: b"cfg".to_vec() });
    assert_eq!(a, Action::Save { path: "net.txt".to_string(), bytes: b"cfg".to_vec() });
    assert_eq!(st.step(Event::Saved { ok: true }), Action::Finish { result: Ok(()), cleanup_failed: false });

    let (mut st, _) = start("missing", &[], TypeExec::System, None, None, "x.txt");
    assert_eq!(st.step(Event::SpawnFailed), Action::Finish { result: Err(ExecError::SpawnFailed), cleanup_failed: false });
}

#[test]
fn internal_entry_collects_or_reports_unknown() {
    let (mut st, a) = start("PortsInfo", &[], TypeExec::Internal, None, None, "ports.txt");
    assert_eq!(a, Action::Collect { collector: Collector::PortsInfo, path: "ports.txt".to_string() });
    assert!(!st.accepts(&Event::Saved { ok: true }));
    assert_eq!(st.step(Event::Collected), Action::Finish { result: Ok(()), cleanup_failed: false });
    let (_, a) = start("Bogus", &[], TypeExec::Internal, None, None, "b.txt");
    assert_eq!(a, Action::Finish { result: Err(ExecError::CollectorNotFound), cleanup_failed: false });
}

#[test]
fn rerun_gives_same_actions() {
    let drive = || {
        let (mut st, a) = start("pslist.exe", &["-t"], TypeExec::External, Some(vec![1, 2]), Some("tmp"), "o.txt");
        let mut seen = vec![a];
        let events = vec![
            Event::Staged { created: true, written: true },
            Event::Exited { code: Some(0), stdout: b"same".to_vec() },
            Event::Saved { ok: true },
            Event::Removed { ok: true },
        ];
        for e in events {
            seen.push(st.step(e));
        }
        seen
    };
    let first = drive();
    assert_eq!(first, drive());
    assert_eq!(first.len(), 5);
    assert!(matches!(first[3], Action::Remove { .. }));
}

#[test]
fn stamp_check_and_fallback() {
    assert_eq!(stamp_or_fallback(Some("2024-05-06_07-08-09".to_string())), "2024-05-06_07-08-09");
    assert_eq!(stamp_or_fallback(Some("+10000-01-01_00-00-00".to_string())), "+10000-01-01_00-00-00");
    assert_eq!(stamp_or_fallback(Some("2024-05-06 07:08:09".to_string())), "1970-01-01_00-00-00");
    assert_eq!(stamp_or_fallback(Some("2024-05-06".to_string())), "1970-01-01_00-00-00");
    assert_eq!(stamp_or_fallback(None), "1970-01-01_00-00-00");
}

#[test]
fn clock_stamp_has_date_shape() {
    let s = local_timestamp();
    assert_eq!(s.len(), 19);
    assert!(s.chars().all(|c| c.is_ascii_digit() || c == '-' || c == '_'));
    assert_eq!(&s[4..5], "-");
    assert_eq!(&s[10..11], "_");
    assert!(s.as_str() > "2020");
}

#[test]
fn datetime_token_replaced_by_stamp() {
    let mut c = two_section_config();
    c.output_filename = "{{datetime}}".to_string();
    let name = c.get_output_filename();
    assert_eq!(name.len(), 19);
    assert!(!name.contains("{{"));
}

#[test]
fn payload_table_then_resource() {
    let table = vec![("pslist.exe".to_string(), vec![1u8, 2])];
    assert_eq!(resolve_payload(&"pslist.exe".to_string(), &table, Some(vec![9])), Ok(vec![1, 2]));
    assert_eq!(resolve_payload(&"other.exe".to_string(), &table, Some(vec![9])), Ok(vec![9]));
    assert_eq!(resolve_payload(&"other.exe".to_string(), &table, None), Err(ExecError::PayloadNotFound));
}
