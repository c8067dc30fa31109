use container_detect::container::{
    accept_rendering, container_image_name, container_name, extract_image_name, module,
    starts_with_image, ContainerConfig, MarkerProbe,
};

fn empty_probe() -> MarkerProbe {
    MarkerProbe {
        proc_vz: false,
        proc_bc: false,
        container_manager: false,
        systemd_container: None,
        containerenv_present: false,
        containerenv_contents: None,
        dockerenv: false,
    }
}

fn config(disabled: bool) -> ContainerConfig {
    ContainerConfig {
        disabled,
        format: "[$symbol [$name]]($style) ".to_string(),
        symbol: "#".to_string(),
        style: "red bold dimmed".to_string(),
    }
}

fn containerenv(name: Option<&str>) -> MarkerProbe {
    let contents = match name {
        Some(name) => format!("image=\"{name}\"\n"),
        None => String::new(),
    };
    MarkerProbe {
        containerenv_present: true,
        containerenv_contents: Some(contents),
        ..empty_probe()
    }
}

#[test]
fn test_none_if_disabled() {
    let expected = None;
    let actual = module(&config(true), &empty_probe());
    assert_eq!(expected, actual);
}

#[test]
fn disabled_wins_over_every_marker() {
    let probe = MarkerProbe {
        proc_vz: true,
        container_manager: true,
        systemd_container: Some("systemd-nspawn\n".to_string()),
        dockerenv: true,
        ..containerenv(Some("fedora-toolbox:35"))
    };
    assert_eq!(module(&config(true), &probe), None);
}

#[test]
fn test_containerenv() {
    let actual = module(&config(false), &containerenv(None));
    assert_eq!(actual, Some("podman".to_string()));
}

#[test]
fn test_containerenv_fedora() {
    let actual = module(&config(false), &containerenv(Some("fedora-toolbox:35")));
    assert_eq!(actual, Some("fedora-toolbox:35".to_string()));
}

#[test]
fn test_containerenv_systemd() {
    let probe = MarkerProbe {
        systemd_container: Some("systemd-nspawn\n".to_string()),
        ..empty_probe()
    };
    let actual = module(&config(false), &probe);
    assert_eq!(actual, Some("Systemd".to_string()));
}

#[test]
fn test_containerenv_wsl() {
    let probe = MarkerProbe {
        systemd_container: Some("wsl\n".to_string()),
        ..empty_probe()
    };
    let actual = module(&config(false), &probe);
    assert_eq!(actual, None);
}

#[test]
fn wsl_padded_with_whitespace_is_still_suppressed() {
    let probe = MarkerProbe {
        systemd_container: Some("  \twsl \r\n".to_string()),
        ..empty_probe()
    };
    assert_eq!(module(&config(false), &probe), None);
}

#[test]
fn wsl_systemd_falls_through_to_later_markers() {
    let probe = MarkerProbe {
        systemd_container: Some("wsl\n".to_string()),
        ..containerenv(None)
    };
    assert_eq!(module(&config(false), &probe), Some("podman".to_string()));
}

#[test]
fn no_markers_no_output() {
    assert_eq!(module(&config(false), &empty_probe()), None);
    assert_eq!(container_name(&empty_probe()), None);
}

#[test]
fn openvz_detected() {
    let probe = MarkerProbe { proc_vz: true, ..empty_probe() };
    assert_eq!(container_name(&probe), Some("OpenVZ".to_string()));
}

#[test]
fn proc_bc_masks_openvz() {
    let probe = MarkerProbe { proc_vz: true, proc_bc: true, ..empty_probe() };
    assert_eq!(container_name(&probe), None);
}

#[test]
fn oci_detected() {
    let probe = MarkerProbe { container_manager: true, ..empty_probe() };
    assert_eq!(container_name(&probe), Some("OCI".to_string()));
}

#[test]
fn docker_detected() {
    let probe = MarkerProbe { dockerenv: true, ..empty_probe() };
    assert_eq!(container_name(&probe), Some("Docker".to_string()));
}

#[test]
fn openvz_wins_over_docker() {
    let probe = MarkerProbe { proc_vz: true, dockerenv: true, ..empty_probe() };
    assert_eq!(container_name(&probe), Some("OpenVZ".to_string()));
}

#[test]
fn unreadable_containerenv_defaults_to_podman() {
    let probe = MarkerProbe {
        containerenv_present: true,
        containerenv_contents: None,
        ..empty_probe()
    };
    assert_eq!(container_name(&probe), Some("podman".to_string()));
}

#[test]
fn image_with_registry_path_keeps_last_component() {
    let probe = containerenv(Some("quay.io/fedora/fedora-toolbox:35"));
    assert_eq!(
        container_name(&probe),
        Some("fedora-toolbox:35".to_string())
    );
}

#[test]
fn image_line_after_other_lines_is_found() {
    let contents = "engine=\"podman-4.0\"\nname=\"box\"\nimage=\"alpine:3.16\"\n";
    assert_eq!(container_image_name(contents), "alpine:3.16".to_string());
}

#[test]
fn containerenv_without_image_line_defaults_to_podman() {
    assert_eq!(
        container_image_name("engine=\"podman\"\nname=\"box\"\n"),
        "podman".to_string()
    );
}

#[test]
fn containerenv_crlf_line_endings() {
    assert_eq!(
        container_image_name("name=\"box\"\r\nimage=\"alpine:3.16\"\r\n"),
        "alpine:3.16".to_string()
    );
}

#[test]
fn containerenv_image_line_without_newline() {
    assert_eq!(
        container_image_name("image=\"alpine:3.16\""),
        "alpine:3.16".to_string()
    );
}

#[test]
fn extract_image_name_strips_all_trailing_quotes() {
    assert_eq!(extract_image_name("image=\"alpine\"\""), "alpine".to_string());
}

#[test]
fn starts_with_image_checks_exact_prefix() {
    assert!(starts_with_image("image=\"x\""));
    assert!(!starts_with_image("image="));
    assert!(!starts_with_image("imagX=\"x\""));
    assert!(!starts_with_image(" image=\"x\""));
}

#[test]
fn accept_rendering_passes_ok_and_suppresses_err() {
    assert_eq!(
        accept_rendering(Ok("# [podman] ".to_string())),
        Some("# [podman] ".to_string())
    );
    assert_eq!(
        accept_rendering(Err("template parse failure".to_string())),
        None
    );
}
