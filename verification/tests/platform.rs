use gotoo_pixel_engine::{
    remember_non_zero_size, simulation_delta_time, Size, MAX_FRAME_DELTA_NANOS, tool_mode_blocks_primary, tool_window_supported, tool_window_surface_matches, validate_config,
    validate_tool_window_config, EngineConfig, ToolWindowConfig, ToolWindowMode,
};

#[test]
fn config_validation_accepts_positive_dimensions() {
    let config = EngineConfig {
        title: "test".into(),
        framebuffer_width: 320,
        framebuffer_height: 180,
        window_width: 960,
        window_height: 540,
    };

    assert!(validate_config(&config).is_ok());
}

#[test]
fn config_validation_rejects_zero_framebuffer_width() {
    let config = EngineConfig {
        title: "test".into(),
        framebuffer_width: 0,
        framebuffer_height: 180,
        window_width: 960,
        window_height: 540,
    };

    let err = validate_config(&config).expect_err("config should be rejected");
    assert_eq!(err.message(), "framebuffer_width must be greater than 0");
}

#[test]
fn config_validation_rejects_zero_framebuffer_height() {
    let config = EngineConfig {
        title: "test".into(),
        framebuffer_width: 320,
        framebuffer_height: 0,
        window_width: 960,
        window_height: 540,
    };

    let err = validate_config(&config).expect_err("config should be rejected");
    assert_eq!(err.message(), "framebuffer_height must be greater than 0");
}

#[test]
fn config_validation_rejects_zero_window_width() {
    let config = EngineConfig {
        title: "test".into(),
        framebuffer_width: 320,
        framebuffer_height: 180,
        window_width: 0,
        window_height: 540,
    };

    let err = validate_config(&config).expect_err("config should be rejected");
    assert_eq!(err.message(), "window_width must be greater than 0");
}

#[test]
fn config_validation_rejects_zero_window_height() {
    let config = EngineConfig {
        title: "test".into(),
        framebuffer_width: 320,
        framebuffer_height: 180,
        window_width: 960,
        window_height: 0,
    };

    let err = validate_config(&config).expect_err("config should be rejected");
    assert_eq!(err.message(), "window_height must be greater than 0");
}

fn valid_tool_config() -> ToolWindowConfig {
    ToolWindowConfig {
        title: "tool".into(),
        framebuffer_width: 240,
        framebuffer_height: 180,
        window_width: 480,
        window_height: 360,
        mode: ToolWindowMode::Modeless,
    }
}

#[test]
fn tool_config_validation_accepts_positive_dimensions() {
    assert!(validate_tool_window_config(&valid_tool_config()).is_ok());
}

#[test]
fn tool_config_validation_rejects_zero_framebuffer_width() {
    let mut config = valid_tool_config();
    config.framebuffer_width = 0;

    let error = validate_tool_window_config(&config).expect_err("config should be rejected");
    assert_eq!(
        error.message(),
        "tool framebuffer_width must be greater than 0"
    );
}

#[test]
fn tool_config_validation_rejects_zero_window_height() {
    let mut config = valid_tool_config();
    config.window_height = 0;

    let error = validate_tool_window_config(&config).expect_err("config should be rejected");
    assert_eq!(
        error.message(),
        "tool window_height must be greater than 0"
    );
}

#[test]
fn tool_modes_define_primary_scheduling_policy() {
    assert!(!tool_mode_blocks_primary(ToolWindowMode::Modeless, false));
    assert!(!tool_mode_blocks_primary(ToolWindowMode::Modeless, true));
    assert!(tool_mode_blocks_primary(ToolWindowMode::Modal, false));
    assert!(tool_mode_blocks_primary(ToolWindowMode::Modal, true));
    assert!(!tool_mode_blocks_primary(
        ToolWindowMode::ModalWhenFocused,
        false
    ));
    assert!(tool_mode_blocks_primary(
        ToolWindowMode::ModalWhenFocused,
        true
    ));
}

#[test]
fn tool_surface_identity_ignores_scheduling_mode() {
    let modeless = valid_tool_config();
    let mut modal = modeless.clone();
    modal.mode = ToolWindowMode::Modal;

    assert!(tool_window_surface_matches(&modeless, &modal));

    modal.mode = ToolWindowMode::ModalWhenFocused;
    assert!(tool_window_surface_matches(&modeless, &modal));

    modal.window_width += 1;
    assert!(!tool_window_surface_matches(&modeless, &modal));
}


#[test]
fn tool_config_validation_names_each_zero_size() {
    let mut config = valid_tool_config();
    config.framebuffer_height = 0;
    assert_eq!(
        validate_tool_window_config(&config).unwrap_err().message(),
        "tool framebuffer_height must be greater than 0"
    );
    let mut config = valid_tool_config();
    config.window_width = 0;
    assert_eq!(
        validate_tool_window_config(&config).unwrap_err().message(),
        "tool window_width must be greater than 0"
    );
}

#[test]
fn config_validation_reports_the_first_zero_size() {
    let config = EngineConfig {
        title: "test".into(),
        framebuffer_width: 0,
        framebuffer_height: 0,
        window_width: 0,
        window_height: 0,
    };
    assert_eq!(
        validate_config(&config).unwrap_err().message(),
        "framebuffer_width must be greater than 0"
    );
}

#[test]
fn tool_surface_identity_compares_titles() {
    let first = valid_tool_config();
    let mut second = valid_tool_config();
    second.title = "other".into();
    assert!(!tool_window_surface_matches(&first, &second));
    assert!(tool_window_supported());
}

fn delta(duration: std::time::Duration) -> std::time::Duration {
    std::time::Duration::from_nanos(simulation_delta_time(duration.as_nanos()) as u64)
}

#[test]
fn simulation_delta_keeps_regular_frames() {
    let max_frame_delta = std::time::Duration::from_nanos(MAX_FRAME_DELTA_NANOS as u64);
    let regular = std::time::Duration::from_millis(16);
    assert_eq!(delta(regular), regular);
    assert_eq!(delta(max_frame_delta), max_frame_delta);
}

#[test]
fn simulation_delta_caps_pathological_stalls() {
    let max_frame_delta = std::time::Duration::from_nanos(MAX_FRAME_DELTA_NANOS as u64);
    assert_eq!(delta(std::time::Duration::from_secs(2)), max_frame_delta);
    assert_eq!(max_frame_delta, std::time::Duration::from_millis(100));
}

#[test]
fn remember_non_zero_size_keeps_latest_non_zero_size() {
    let mut size = None;

    remember_non_zero_size(&mut size, Size { width: 960, height: 540 });
    remember_non_zero_size(&mut size, Size { width: 1280, height: 720 });

    assert_eq!(size, Some(Size { width: 1280, height: 720 }));
}

#[test]
fn remember_non_zero_size_ignores_zero_dimensions() {
    let mut size = Some(Size { width: 960, height: 540 });

    remember_non_zero_size(&mut size, Size { width: 0, height: 540 });
    remember_non_zero_size(&mut size, Size { width: 960, height: 0 });
    remember_non_zero_size(&mut size, Size { width: 0, height: 0 });

    assert_eq!(size, Some(Size { width: 960, height: 540 }));
}
