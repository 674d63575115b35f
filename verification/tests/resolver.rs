use zero_copy_model_runner::container::resolver::{
    auto_match_profile, choose_kernel, discover_xclbin_profiles, interactive_select_profile,
    match_names, normalize_key, resolve_xclbin_profile, search_paths, selection_menu,
    selection_notice, DirEntry, Resolution, XclbinProfile,
};
use zero_copy_model_runner::container::{ContainerError, IoFault};

fn profile(name: &str) -> XclbinProfile {
    XclbinProfile {
        name: name.to_string(),
        profile_dir: "/tmp".to_string(),
        primary_xclbin_path: format!("/tmp/{}.xclbin", name),
    }
}

fn dir(parent: &str, name: &str, kernel: Option<&str>, children: Vec<DirEntry>) -> DirEntry {
    DirEntry {
        name: name.to_string(),
        stem: name.to_string(),
        path: format!("{}/{}", parent, name),
        parent: parent.to_string(),
        is_dir: true,
        is_file: false,
        is_xclbin: false,
        kernel: kernel.map(|k| format!("{}/{}/{}", parent, name, k)),
        children,
    }
}

fn file(parent: &str, stem: &str, is_xclbin: bool) -> DirEntry {
    DirEntry {
        name: format!("{}.xclbin", stem),
        stem: stem.to_string(),
        path: format!("{}/{}.xclbin", parent, stem),
        parent: parent.to_string(),
        is_dir: false,
        is_file: true,
        is_xclbin,
        kernel: None,
        children: Vec::new(),
    }
}

#[test]
fn test_interactive_selection_fallback() {
    let dummy_profiles = vec![
        XclbinProfile {
            name: "Profile-A".into(),
            profile_dir: "/tmp".into(),
            primary_xclbin_path: "/tmp/a.xclbin".into(),
        },
        XclbinProfile {
            name: "Profile-B".into(),
            profile_dir: "/tmp".into(),
            primary_xclbin_path: "/tmp/b.xclbin".into(),
        },
    ];

    let selected = interactive_select_profile(&dummy_profiles, "2\n").unwrap();
    assert_eq!(selected.name, "Profile-B");

    let selected_default = interactive_select_profile(&dummy_profiles, "invalid\n").unwrap();
    assert_eq!(selected_default.name, "Profile-A");
}

#[test]
fn selections_are_read_strictly() {
    let ps = vec![profile("A"), profile("B")];
    assert_eq!(interactive_select_profile(&ps, " +2 ").unwrap().name, "B");
    assert_eq!(interactive_select_profile(&ps, "3").unwrap().name, "A");
    assert_eq!(interactive_select_profile(&ps, "0").unwrap().name, "A");
    assert_eq!(interactive_select_profile(&ps, "").unwrap().name, "A");
    assert_eq!(interactive_select_profile(&ps, "99999999999999999999999").unwrap().name, "A");
    assert_eq!(selection_notice(&ps, "2"), None);
    assert_eq!(
        selection_notice(&ps, "x"),
        Some("No valid selection entered. Defaulting to profile [1]: A".to_string())
    );
    match interactive_select_profile(&[], "1") {
        Err(ContainerError::Io(IoFault::NotFound(s))) => {
            assert_eq!(s, "No XCLBIN profiles found in search paths")
        }
        _ => panic!("expected an error"),
    }
}

#[test]
fn the_menu_lists_every_profile() {
    let ps = vec![profile("A"), profile("B")];
    let files = vec!["a.xclbin".to_string(), "b.xclbin".to_string()];
    let menu = selection_menu(&ps, &files);
    assert!(menu.starts_with("\n====="));
    assert!(menu.contains("Discovered 2 compatible hardware graph profiles in search paths.\n"));
    assert!(menu.contains("  [ 1] A (a.xclbin)\n  [ 2] B (b.xclbin)\n-----"));
    assert!(menu.ends_with("Enter selection [1-2]: "));
}

#[test]
fn test_dynamic_xclbin_discovery_on_folder_addition() {
    let initial_profiles = discover_xclbin_profiles(&[Vec::new()]);
    assert_eq!(initial_profiles.len(), 0);

    let root = "/tmp/xclbin_dyn_test";
    let updated_profiles =
        discover_xclbin_profiles(&[vec![dir(root, "Phi-4-Mini", Some("layer.xclbin"), Vec::new())]]);
    let phi_profile = updated_profiles.iter().find(|p| p.name == "Phi-4-Mini");
    assert!(phi_profile.is_some(), "Dynamic folder addition should be detected");
    assert_eq!(
        phi_profile.unwrap().primary_xclbin_path,
        "/tmp/xclbin_dyn_test/Phi-4-Mini/layer.xclbin"
    );

    let updated_profiles2 = discover_xclbin_profiles(&[vec![
        dir(root, "Phi-4-Mini", Some("layer.xclbin"), Vec::new()),
        file(root, "Gemma-2-9B", true),
    ]]);
    let gemma_profile = updated_profiles2.iter().find(|p| p.name == "Gemma-2-9B");
    assert!(gemma_profile.is_some(), "Flat xclbin addition should be detected");
    assert_eq!(updated_profiles2[0].name, "Gemma-2-9B");

    let matched = auto_match_profile("Phi-4-mini-instruct.q4nx", &updated_profiles2);
    assert!(matched.is_some());
    assert_eq!(matched.unwrap().name, "Phi-4-Mini");
}

#[test]
fn discovery_goes_three_deep_and_keeps_first_names() {
    let deep = dir("a/b/c", "d", None, vec![dir("a/b/c/d", "e", Some("mm.xclbin"), Vec::new())]);
    let tree = dir("r", "a", None, vec![dir("a", "b", None, vec![dir("a/b", "c", None, vec![deep])])]);
    assert!(discover_xclbin_profiles(&[vec![tree]]).is_empty());
    let near = dir("r", "a", None, vec![dir("a", "b", None, vec![dir("a/b", "p", Some("mm.xclbin"), Vec::new())])]);
    assert_eq!(discover_xclbin_profiles(&[vec![near]])[0].name, "p");

    let first = vec![dir("x", "same", Some("layer.xclbin"), Vec::new()), file("x", "note", false)];
    let second = vec![
        dir("y", "same", Some("attn.xclbin"), Vec::new()),
        dir("y", "any", None, vec![file("y/any", "odd", true)]),
    ];
    let found = discover_xclbin_profiles(&[first, second]);
    assert_eq!(found.len(), 2);
    assert_eq!(found[0].name, "any");
    assert_eq!(found[0].primary_xclbin_path, "y/any/odd.xclbin");
    assert_eq!(found[1].name, "same");
    assert_eq!(found[1].primary_xclbin_path, "x/same/layer.xclbin");
}

#[test]
fn test_discover_and_auto_match_profiles() {
    let profiles = discover_xclbin_profiles(&[vec![
        dir("p", "Qwen3-8B-NPU2", Some("layer.xclbin"), Vec::new()),
        dir("p", "Llama-3.1-8B-NPU2", Some("layer.xclbin"), Vec::new()),
        dir("p", "Gemma3-4B-NPU2", Some("layer.xclbin"), Vec::new()),
    ]]);
    assert!(!profiles.is_empty(), "Should discover local XCLBIN profiles");

    let llama_match = auto_match_profile("Meta-Llama-3.1-8B-Instruct.gguf", &profiles);
    assert!(llama_match.is_some());
    assert!(llama_match.unwrap().name.contains("Llama-3.1-8B"));

    let qwen_match = auto_match_profile("qwen3-8b-instruct.q4nx", &profiles);
    assert!(qwen_match.is_some());
    assert!(qwen_match.unwrap().name.contains("Qwen3-8B"));
}

#[test]
fn matching_prefers_exact_then_longer_names() {
    assert_eq!(normalize_key("Phi-4 Mini_é!"), "phi4minié");
    let ps = vec![profile("Llama"), profile("Llama-3"), profile("llama 3 8b")];
    assert_eq!(auto_match_profile("LLAMA_3_8B", &ps).unwrap().name, "llama 3 8b");
    assert_eq!(auto_match_profile("llama-3-70b", &ps).unwrap().name, "Llama-3");
    assert!(auto_match_profile("zzz", &ps).is_none());
    assert!(auto_match_profile("llama", &[]).is_none());
    let names = vec!["x".to_string(), "y".to_string()];
    let lower = vec!["foo-qwen".to_string(), "bar-qwen-8b".to_string()];
    assert_eq!(match_names("m", "my-qwen-8b", &names, &lower), Some(1));
    assert_eq!(match_names("m", "my-model", &names, &lower), None);
}

#[test]
fn resolution_follows_its_order() {
    let ps = vec![profile("Foo-Gemma"), profile("Bar-Qwen-X")];
    let given = profile("given");
    match resolve_xclbin_profile("m", Some(given), &ps, true) {
        Ok(Resolution::Chosen(p)) => assert_eq!(p.name, "given"),
        _ => panic!("the given profile goes first"),
    }
    match resolve_xclbin_profile("m", None, &[], true) {
        Err(ContainerError::Io(IoFault::NotFound(s))) => {
            assert_eq!(s, "No XCLBIN profiles found in search directories")
        }
        _ => panic!("expected an error"),
    }
    match resolve_xclbin_profile("bar qwen x", None, &ps, true) {
        Ok(Resolution::Chosen(p)) => assert_eq!(p.name, "Bar-Qwen-X"),
        _ => panic!("expected a match"),
    }
    assert!(matches!(
        resolve_xclbin_profile("unknown", None, &ps, true),
        Ok(Resolution::Ask)
    ));
    match resolve_xclbin_profile("unknown", None, &ps, false) {
        Ok(Resolution::Chosen(p)) => assert_eq!(p.name, "Foo-Gemma"),
        _ => panic!("expected the first profile"),
    }
}

#[test]
fn search_paths_are_in_order() {
    let paths = search_paths(Some("/c"), None, Some("/e"), Some("/home/u"));
    assert_eq!(paths[0], "/c");
    assert_eq!(paths[1], "/e");
    assert_eq!(paths[2], "/home/u/.local/share/llama-apu/xclbins");
    assert_eq!(paths[3], "/usr/local/share/llama-apu/xclbins");
    assert_eq!(paths.len(), 10);
    assert_eq!(paths[9], "../xclbins");
    assert_eq!(search_paths(None, None, None, Some("/r/"))[0], "/r/.local/share/llama-apu/xclbins");
}

#[test]
fn kernels_have_an_order() {
    assert_eq!(choose_kernel(true, true, true), Some("layer.xclbin"));
    assert_eq!(choose_kernel(false, true, true), Some("mm.xclbin"));
    assert_eq!(choose_kernel(false, false, true), Some("attn.xclbin"));
    assert_eq!(choose_kernel(false, false, false), None);
}

#[test]
fn first_profiles_keep_their_paths() {
    let first = vec![
        dir("/a", "qwen", Some("mm.xclbin"), Vec::new()),
        dir("/a", "more", None, vec![dir("/a/more", "phi", None, vec![file("/a/more/phi", "k", true)])]),
        file("/a", "phi", true),
    ];
    let second = vec![dir("/b", "qwen", Some("layer.xclbin"), Vec::new()), file("/b", "lfm", true)];
    let found = discover_xclbin_profiles(&[first, second]);
    let paths: Vec<(&str, &str)> =
        found.iter().map(|p| (p.name.as_str(), p.primary_xclbin_path.as_str())).collect();
    assert_eq!(
        paths,
        vec![
            ("lfm", "/b/lfm.xclbin"),
            ("phi", "/a/more/phi/k.xclbin"),
            ("qwen", "/a/qwen/mm.xclbin"),
        ]
    );
    assert!(found.iter().all(|p| p.primary_xclbin_path.ends_with(".xclbin")));
}
