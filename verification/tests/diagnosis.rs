use renderdog_automation::diagnosis::EnvironmentVarInfo;
use renderdog_automation::diagnosis::diagnose_environment;
use renderdog_automation::diagnosis::diagnose_vulkan_layer_output;
use renderdog_automation::diagnosis::extract_manifest_paths;
use renderdog_automation::diagnosis::manifest_dirs;
use renderdog_automation::renderdoccmd::RenderDocInstallation;

fn install() -> RenderDocInstallation {
    RenderDocInstallation {
        root_dir: "/opt/renderdoc".to_string(),
        qrenderdoc_exe: "/opt/renderdoc/bin/qrenderdoc".to_string(),
        renderdoccmd_exe: "/opt/renderdoc/bin/renderdoccmd".to_string(),
    }
}

#[test]
fn correctly_registered_report() {
    let d = diagnose_vulkan_layer_output(
        &install().renderdoccmd_exe,
        "The RenderDoc Vulkan layer appears to be correctly registered.".to_string(),
        String::new(),
    );
    assert!(d.supported);
    assert!(!d.needs_attention);
    assert!(!d.unfixable);
    assert_eq!(d.this_install_registered, Some(true));
    assert_eq!(d.summary, "RenderDoc Vulkan layer is correctly registered");
    assert!(d.suggested_commands.is_empty());
}

#[test]
fn unrecognized_subcommand_report() {
    let d = diagnose_vulkan_layer_output(
        &install().renderdoccmd_exe,
        String::new(),
        "vulkanlayer is not a valid command".to_string(),
    );
    assert!(!d.supported);
    assert!(!d.needs_attention);
    assert!(d.conflicting_manifests.is_empty());
    assert_eq!(
        d.summary,
        "renderdoccmd does not support the `vulkanlayer` command (too old?)"
    );
}

#[test]
fn unregistered_layer_needs_attention() {
    let d = diagnose_vulkan_layer_output(
        &install().renderdoccmd_exe,
        "This build's RenderDoc layer is not registered. The Vulkan layer must be fixed."
            .to_string(),
        String::new(),
    );
    assert!(d.supported);
    assert!(d.needs_attention);
    assert_eq!(d.this_install_registered, Some(false));
    assert_eq!(d.summary, "RenderDoc Vulkan layer is not correctly registered");
    assert_eq!(
        d.suggested_commands,
        vec![
            "\"/opt/renderdoc/bin/renderdoccmd\" vulkanlayer --register --user".to_string(),
            "\"/opt/renderdoc/bin/renderdoccmd\" vulkanlayer --register --system".to_string(),
        ]
    );
}

#[test]
fn unfixable_problem_report() {
    let d = diagnose_vulkan_layer_output(
        &install().renderdoccmd_exe,
        "There is an unfixable problem with your vulkan layer configuration.".to_string(),
        String::new(),
    );
    assert!(d.supported);
    assert!(d.unfixable);
    assert!(d.needs_attention);
    assert_eq!(
        d.summary,
        "RenderDoc Vulkan layer configuration has an unfixable problem"
    );
}

#[test]
fn elevation_phrases_detected() {
    let d = diagnose_vulkan_layer_output(
        &install().renderdoccmd_exe,
        "Registering the vulkan layer requires administrator rights.".to_string(),
        String::new(),
    );
    assert!(d.need_elevation);
}

#[test]
fn manifest_paths_sorted_and_deduplicated() {
    let text = "found /b/layer.json\n  /a/layer.json  \nnothing here\n/b/layer.json\n".to_string();
    let paths = extract_manifest_paths(&text);
    assert_eq!(
        paths,
        vec![
            "/a/layer.json".to_string(),
            "/b/layer.json".to_string(),
            "found /b/layer.json".to_string(),
        ]
    );
}

#[test]
fn manifest_dirs_sorted_unique_parents() {
    let manifests = vec![
        "/etc/vulkan/layers/b.json".to_string(),
        "/etc/vulkan/layers/a.json".to_string(),
        "/home/u/.local/share/vulkan/c.json".to_string(),
    ];
    let dirs = manifest_dirs(&manifests);
    assert_eq!(
        dirs,
        vec![
            "/etc/vulkan/layers".to_string(),
            "/home/u/.local/share/vulkan".to_string(),
        ]
    );
}

#[test]
fn macos_platform_warning_first() {
    let d = diagnose_environment(
        &install(),
        "macos".to_string(),
        "aarch64".to_string(),
        None,
        None,
        None,
        Vec::new(),
        Vec::new(),
    );
    assert_eq!(d.warnings.len(), 1);
    assert!(d.warnings[0].contains("macOS is experimental"));
    assert!(d.suggested_commands.is_empty());
}

#[test]
fn linux_arch_warning_embeds_arch() {
    let d = diagnose_environment(
        &install(),
        "linux".to_string(),
        "aarch64".to_string(),
        None,
        None,
        None,
        Vec::new(),
        Vec::new(),
    );
    assert_eq!(d.warnings.len(), 1);
    assert_eq!(
        d.warnings[0],
        "RenderDoc officially supports only x86_64 Linux; current arch is `aarch64` (ARM/32-bit targets are not supported)."
    );
}

#[test]
fn instance_layers_cross_check() {
    let env = vec![
        EnvironmentVarInfo {
            name: "VK_INSTANCE_LAYERS".to_string(),
            value: Some("VK_LAYER_OTHER".to_string()),
        },
        EnvironmentVarInfo { name: "VK_LAYER_PATH".to_string(), value: None },
    ];
    let d = diagnose_environment(
        &install(),
        "linux".to_string(),
        "x86_64".to_string(),
        None,
        None,
        None,
        Vec::new(),
        env,
    );
    assert_eq!(d.warnings.len(), 1);
    assert!(d.warnings[0].starts_with("VK_INSTANCE_LAYERS is set but does not include"));
    assert_eq!(d.suggested_commands.len(), 1);
    assert!(d.suggested_commands[0].starts_with("Set VK_INSTANCE_LAYERS"));
}

#[test]
fn layer_path_manifest_dirs_cross_check() {
    let env = vec![EnvironmentVarInfo {
        name: "VK_LAYER_PATH".to_string(),
        value: Some("/somewhere/else".to_string()),
    }];
    let manifests = vec![
        "/etc/vulkan/layers/rd.json".to_string(),
        "/opt/share/vulkan/rd.json".to_string(),
    ];
    let d = diagnose_environment(
        &install(),
        "linux".to_string(),
        "x86_64".to_string(),
        None,
        None,
        None,
        manifests,
        env,
    );
    // One warning for VK_LAYER_PATH not naming the root dir, one for the
    // missing manifest directories, in that order.
    assert_eq!(d.warnings.len(), 2);
    assert!(d.warnings[0].starts_with("VK_LAYER_PATH is set; if Vulkan capture fails"));
    assert_eq!(
        d.warnings[1],
        "VK_LAYER_PATH is set but does not appear to include the RenderDoc Vulkan layer manifest directory. Detected manifest dirs: /etc/vulkan/layers | /opt/share/vulkan"
    );
    assert_eq!(d.suggested_commands.len(), 1);
    assert_eq!(
        d.suggested_commands[0],
        "Update VK_LAYER_PATH to include the detected directories (separator `:`), or unset VK_LAYER_PATH if it is causing conflicts."
    );
}

#[test]
fn elevation_warning_needs_both_flags() {
    let vk = diagnose_vulkan_layer_output(
        &install().renderdoccmd_exe,
        "The vulkan layer is broken; fixing it requires elevation.".to_string(),
        String::new(),
    );
    assert!(vk.needs_attention && vk.need_elevation);
    let d = diagnose_environment(
        &install(),
        "linux".to_string(),
        "x86_64".to_string(),
        Some(false),
        None,
        Some(vk),
        Vec::new(),
        Vec::new(),
    );
    // The layer summary warning, then the elevation warning.
    assert_eq!(d.warnings.len(), 2);
    assert!(d.warnings[1].starts_with("Vulkan layer registration may require administrator"));
}
