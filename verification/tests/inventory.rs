use vms::{get_running_vms, get_vm, get_vms, has_vmx_extension, Action, ScanFile, Vm};

fn scan_file(path: &str, lines: &[&str]) -> ScanFile {
    ScanFile {
        path: path.to_string(),
        lines: lines.iter().map(|s| s.to_string()).collect(),
    }
}

fn strings(v: &[&str]) -> Vec<String> {
    v.iter().map(|s| s.to_string()).collect()
}

#[test]
fn vmx_extension_recognised() {
    assert!(has_vmx_extension("a/one.vmx"));
    assert!(has_vmx_extension("one.vmx"));
    assert!(has_vmx_extension("/deep/ly/nested/tree/two.vmx"));
    assert!(has_vmx_extension("a/b.c.vmx"));
    assert!(!has_vmx_extension("a/one.txt"));
    assert!(!has_vmx_extension("a/one.vmdk"));
    assert!(!has_vmx_extension("a/onevmx"));
    assert!(!has_vmx_extension("a/.vmx"));
    assert!(!has_vmx_extension("dir.vmx/file"));
    assert!(!has_vmx_extension(""));
}

#[test]
fn inventory_scenario_two_files() {
    let files = vec![
        scan_file("a/one.vmx", &["displayname = \"Web Server\""]),
        scan_file("b/two.vmx", &["memsize = \"1024\""]),
    ];
    let running = strings(&["a/one.vmx"]);
    let vms = get_vms(&files, &running);
    assert_eq!(vms.len(), 2);
    assert_eq!(vms[0].name, "Web Server");
    assert_eq!(vms[0].vmx, "a/one.vmx");
    assert!(vms[0].is_running);
    assert_eq!(vms[1].name, "Unknown");
    assert_eq!(vms[1].vmx, "b/two.vmx");
    assert!(!vms[1].is_running);
}

#[test]
fn inventory_keeps_only_configuration_files() {
    let files = vec![
        scan_file("a/one.vmx", &[]),
        scan_file("a/one.vmdk", &[]),
        scan_file("a/notes.txt", &[]),
        scan_file("b/c/d/two.vmx", &[]),
        scan_file("b/.vmx", &[]),
    ];
    let running = Vec::new();
    let vms = get_vms(&files, &running);
    assert_eq!(vms.len(), 2);
    assert_eq!(vms[0].vmx, "a/one.vmx");
    assert_eq!(vms[1].vmx, "b/c/d/two.vmx");
}

#[test]
fn inventory_of_empty_scan_is_empty() {
    let files = Vec::new();
    let running = strings(&["Total running VMs: 1", "a/one.vmx"]);
    let vms = get_vms(&files, &get_running_vms(&running));
    assert!(vms.is_empty());
}

#[test]
fn running_mark_needs_verbatim_path() {
    let files = vec![
        scan_file("a/one.vmx", &[]),
        scan_file("b/two.vmx", &[]),
        scan_file("c/three.vmx", &[]),
    ];
    let running = strings(&["b/two.vmx", "B/TWO.VMX", "a/one.vmx.bak"]);
    let vms = get_vms(&files, &running);
    assert!(!vms[0].is_running);
    assert!(vms[1].is_running);
    assert!(!vms[2].is_running);
}

#[test]
fn running_list_discards_header() {
    let output = strings(&["Total running VMs: 2", "a/one.vmx", "b/two.vmx"]);
    assert_eq!(get_running_vms(&output), strings(&["a/one.vmx", "b/two.vmx"]));
}

#[test]
fn running_list_of_header_alone_is_empty() {
    let output = strings(&["Total running VMs: 0"]);
    assert!(get_running_vms(&output).is_empty());
    let nothing: Vec<String> = Vec::new();
    assert!(get_running_vms(&nothing).is_empty());
}

#[test]
fn lookup_is_case_insensitive() {
    let files = vec![
        scan_file("a/one.vmx", &["displayname = \"MyVM\""]),
        scan_file("b/two.vmx", &["displayname = \"Other\""]),
    ];
    let running = Vec::new();
    for query in ["MyVM", "myvm", "MYVM"] {
        let vm = get_vm(&files, &running, query).unwrap();
        assert_eq!(vm.vmx, "a/one.vmx");
        assert_eq!(vm.name, "MyVM");
    }
}

#[test]
fn lookup_miss_carries_requested_name() {
    let files = vec![scan_file("a/one.vmx", &["displayname = \"MyVM\""])];
    let running = Vec::new();
    let err = get_vm(&files, &running, "absent").unwrap_err();
    assert_eq!(err.name, "absent");
}

#[test]
fn lookup_on_empty_inventory_misses() {
    let files = Vec::new();
    let running = Vec::new();
    let err = get_vm(&files, &running, "anything").unwrap_err();
    assert_eq!(err.name, "anything");
}

#[test]
fn lookup_duplicate_names_first_in_scan_order_wins() {
    let files = vec![
        scan_file("a/one.vmx", &["displayname = \"Twin\""]),
        scan_file("b/two.vmx", &["displayname = \"twin\""]),
    ];
    let running = Vec::new();
    let vm = get_vm(&files, &running, "TWIN").unwrap();
    assert_eq!(vm.vmx, "a/one.vmx");
}

#[test]
fn from_vmx_record() {
    let lines = vec!["displayname = \"Dev Box\"".to_string()];
    let vm = Vm::from_vmx("x/y.vmx".to_string(), &lines);
    assert_eq!(vm.name, "Dev Box");
    assert_eq!(vm.vmx, "x/y.vmx");
    assert!(!vm.is_running);
}

#[test]
fn manage_command_is_verb_then_path() {
    let vm = Vm {
        name: "Web Server".to_string(),
        vmx: "p".to_string(),
        is_running: false,
    };
    assert_eq!(vm.manage_command(Action::Start), ("start".to_string(), "p".to_string()));
    assert_eq!(vm.manage_command(Action::Stop), ("stop".to_string(), "p".to_string()));
    assert_eq!(vm.manage_command(Action::Suspend), ("suspend".to_string(), "p".to_string()));
}

#[test]
fn manage_notice_wording() {
    let vm = Vm {
        name: "Web Server".to_string(),
        vmx: "p".to_string(),
        is_running: false,
    };
    assert_eq!(vm.manage_notice(Action::Start), "started Web Server");
    assert_eq!(vm.manage_notice(Action::Suspend), "suspended Web Server");
}

#[test]
fn action_verbs() {
    assert_eq!(Action::Start.verb(), "start");
    assert_eq!(Action::Stop.verb(), "stop");
    assert_eq!(Action::Suspend.verb(), "suspend");
}
