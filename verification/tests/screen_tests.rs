//! Screen states, queue messages, the loop core, and the views.

use rusted_jetsons::{
    ControlAction, ControlScreen, ControlStats, InfoScreen, InfoStats, InputEvent, LoopCore,
    MemoryScreen, MemoryScreenStats, MemoryStats, ScreenState, SimpleBoardInfo,
    SimpleMemoryStats, StateMessage, TelemetryExporter,
};

#[test]
fn test_screen_state_count() {
    assert_eq!(ScreenState::COUNT, 8, "Should have 8 screen states");
    let mut count = 0;
    let mut idx = 0;
    while ScreenState::from_index(idx).is_some() {
        count += 1;
        idx += 1;
    }
    assert_eq!(count, ScreenState::COUNT);
}

#[test]
fn test_screen_state_from_index() {
    assert_eq!(ScreenState::from_index(0), Some(ScreenState::All));
    assert_eq!(ScreenState::from_index(1), Some(ScreenState::Cpu));
    assert_eq!(ScreenState::from_index(2), Some(ScreenState::Gpu));
    assert_eq!(ScreenState::from_index(3), Some(ScreenState::Memory));
    assert_eq!(ScreenState::from_index(4), Some(ScreenState::Power));
    assert_eq!(ScreenState::from_index(5), Some(ScreenState::Temperature));
    assert_eq!(ScreenState::from_index(6), Some(ScreenState::Control));
    assert_eq!(ScreenState::from_index(7), Some(ScreenState::Info));
    assert_eq!(ScreenState::from_index(8), None, "Index 8 should be out of range");
    assert_eq!(ScreenState::from_index(999), None, "Index 999 should be out of range");
}

#[test]
fn test_screen_state_index() {
    assert_eq!(ScreenState::All.index(), 1);
    assert_eq!(ScreenState::Cpu.index(), 2);
    assert_eq!(ScreenState::Gpu.index(), 3);
    assert_eq!(ScreenState::Memory.index(), 4);
    assert_eq!(ScreenState::Power.index(), 5);
    assert_eq!(ScreenState::Temperature.index(), 6);
    assert_eq!(ScreenState::Control.index(), 7);
    assert_eq!(ScreenState::Info.index(), 8);
}

#[test]
fn test_screen_state_name() {
    assert_eq!(ScreenState::All.name(), "All");
    assert_eq!(ScreenState::Cpu.name(), "CPU");
    assert_eq!(ScreenState::Gpu.name(), "GPU");
    assert_eq!(ScreenState::Memory.name(), "Memory");
    assert_eq!(ScreenState::Power.name(), "Power");
    assert_eq!(ScreenState::Temperature.name(), "Temperature");
    assert_eq!(ScreenState::Control.name(), "Control");
    assert_eq!(ScreenState::Info.name(), "Info");
}

#[test]
fn test_screen_state_equality() {
    assert_eq!(ScreenState::All, ScreenState::All);
    assert_eq!(ScreenState::Cpu, ScreenState::Cpu);
    assert_ne!(ScreenState::Cpu, ScreenState::Gpu);
    assert_ne!(ScreenState::Memory, ScreenState::Power);
}

#[test]
fn test_screen_state_copy_and_clone() {
    let state1 = ScreenState::Cpu;
    let state2 = state1;
    assert_eq!(state1, ScreenState::Cpu);
    assert_eq!(state2, ScreenState::Cpu);
}

#[test]
fn test_state_message_set_screen() {
    let msg = StateMessage::SetScreen(ScreenState::Cpu);
    match msg {
        StateMessage::SetScreen(screen) => assert_eq!(screen, ScreenState::Cpu),
        _ => panic!("Expected SetScreen variant"),
    }
}

#[test]
fn test_state_message_update() {
    let msg = StateMessage::Update;
    match msg {
        StateMessage::Update => (),
        _ => panic!("Expected Update variant"),
    }
}

#[test]
fn test_state_message_exit() {
    let msg = StateMessage::Exit;
    match msg {
        StateMessage::Exit => (),
        _ => panic!("Expected Exit variant"),
    }
}

#[test]
fn test_state_message_error() {
    let error_msg = "Test error".to_string();
    let msg = StateMessage::Error(error_msg.clone());
    match msg {
        StateMessage::Error(err) => assert_eq!(err, error_msg),
        _ => panic!("Expected Error variant"),
    }
}

#[test]
fn test_screen_state_index_consistency() {
    let all_screen = ScreenState::All;
    assert_eq!(all_screen.index(), 1);

    let cpu_screen = ScreenState::Cpu;
    assert_eq!(cpu_screen.index(), 2);

    let gpu_screen = ScreenState::Gpu;
    assert_eq!(gpu_screen.index(), 3);
}

#[test]
fn test_screen_state_from_index_roundtrip() {
    for idx in 0..ScreenState::COUNT {
        if let Some(state) = ScreenState::from_index(idx) {
            assert!(state.index() >= 1 && state.index() <= 8);
        }
    }
}

#[test]
fn test_screen_state_names() {
    assert_eq!(ScreenState::All.name(), "All");
    assert_eq!(ScreenState::Cpu.name(), "CPU");
    assert_eq!(ScreenState::Gpu.name(), "GPU");
    assert_eq!(ScreenState::Memory.name(), "Memory");
    assert_eq!(ScreenState::Power.name(), "Power");
    assert_eq!(ScreenState::Temperature.name(), "Temperature");
    assert_eq!(ScreenState::Control.name(), "Control");
    assert_eq!(ScreenState::Info.name(), "Info");
}

#[test]
fn test_screen_state_transitions() {
    let initial_screen = ScreenState::All;
    assert_eq!(initial_screen, ScreenState::All);

    let cpu_screen = ScreenState::Cpu;
    assert_ne!(initial_screen, cpu_screen);

    let final_screen = ScreenState::Gpu;
    assert_eq!(final_screen, ScreenState::Gpu);
}

#[test]
fn test_all_screen_states_are_unique() {
    let states = vec![
        ScreenState::All,
        ScreenState::Cpu,
        ScreenState::Gpu,
        ScreenState::Memory,
        ScreenState::Power,
        ScreenState::Temperature,
        ScreenState::Control,
        ScreenState::Info,
    ];
    for (i, state1) in states.iter().enumerate() {
        for (j, state2) in states.iter().enumerate() {
            if i != j {
                assert_ne!(state1, state2, "Screen states at {} and {} should be different", i, j);
            }
        }
    }
}

#[test]
fn test_state_message_variants() {
    let set_screen_msg = StateMessage::SetScreen(ScreenState::Cpu);
    assert!(matches!(set_screen_msg, StateMessage::SetScreen(_)));

    let update_msg = StateMessage::Update;
    assert!(matches!(update_msg, StateMessage::Update));

    let exit_msg = StateMessage::Exit;
    assert!(matches!(exit_msg, StateMessage::Exit));

    let error_msg = StateMessage::Error("test error".to_string());
    assert!(matches!(error_msg, StateMessage::Error(_)));
}

#[test]
fn test_screen_navigation_sequence() {
    let mut current_screen;

    current_screen = ScreenState::Cpu;
    assert_eq!(current_screen, ScreenState::Cpu);

    current_screen = ScreenState::Gpu;
    assert_eq!(current_screen, ScreenState::Gpu);

    current_screen = ScreenState::Memory;
    assert_eq!(current_screen, ScreenState::Memory);

    current_screen = ScreenState::Power;
    assert_eq!(current_screen, ScreenState::Power);

    current_screen = ScreenState::Temperature;
    assert_eq!(current_screen, ScreenState::Temperature);

    current_screen = ScreenState::Control;
    assert_eq!(current_screen, ScreenState::Control);

    current_screen = ScreenState::Info;
    assert_eq!(current_screen, ScreenState::Info);

    current_screen = ScreenState::All;
    assert_eq!(current_screen, ScreenState::All);
}

#[test]
fn test_tick_rate_duration() {
    let tick_rate = std::time::Duration::from_millis(250);
    assert_eq!(tick_rate.as_millis(), 250);

    let alternative_tick_rate = std::time::Duration::from_millis(100);
    assert_eq!(alternative_tick_rate.as_millis(), 100);
    assert_ne!(tick_rate, alternative_tick_rate);
}

#[test]
fn test_state_message_clone() {
    let msg1 = StateMessage::SetScreen(ScreenState::Cpu);
    let msg2 = msg1.clone();
    assert_eq!(msg1, msg2);
}

#[test]
fn test_multiple_state_messages() {
    let mut messages = Vec::new();

    messages.push(StateMessage::SetScreen(ScreenState::All));
    messages.push(StateMessage::Update);
    messages.push(StateMessage::SetScreen(ScreenState::Cpu));
    messages.push(StateMessage::Update);
    messages.push(StateMessage::Exit);

    assert_eq!(messages.len(), 5);
    assert!(matches!(messages[0], StateMessage::SetScreen(ScreenState::All)));
    assert!(matches!(messages[1], StateMessage::Update));
    assert!(matches!(messages[2], StateMessage::SetScreen(ScreenState::Cpu)));
    assert!(matches!(messages[3], StateMessage::Update));
    assert!(matches!(messages[4], StateMessage::Exit));
}

// From the overview, selecting screen number 5 lands on the power view;
// an out-of-range number is a no-op.
#[test]
fn test_select_screen_by_number() {
    let mut core = LoopCore::new(250);
    assert_eq!(core.current_screen, ScreenState::All);

    core.select_screen(5);
    assert_eq!(core.current_screen, ScreenState::Power);
    assert!(core.screen_changed);

    core.select_screen(99);
    assert_eq!(core.current_screen, ScreenState::Power, "Out of range is a no-op");

    core.select_screen(0);
    assert_eq!(core.current_screen, ScreenState::Power, "Zero is out of range");
}

#[test]
fn test_loop_input_vocabulary() {
    let mut core = LoopCore::new(250);

    core.handle_input(InputEvent::Char('6'));
    assert_eq!(core.current_screen, ScreenState::Temperature);

    core.handle_input(InputEvent::Char('x'));
    assert_eq!(core.current_screen, ScreenState::Temperature, "Unrecognized keys are ignored");
    assert!(!core.should_exit);

    core.handle_input(InputEvent::Char('q'));
    assert!(core.should_exit);
}

#[test]
fn test_loop_escape_quits() {
    let mut core = LoopCore::new(250);
    core.handle_input(InputEvent::Esc);
    assert!(core.should_exit);
}

// A fatal error dispatched into the loop latches termination: nothing
// processed afterwards can clear it, so the teardown path always runs.
#[test]
fn test_error_message_latches_exit() {
    let mut core = LoopCore::new(250);
    core.process_message(&StateMessage::Error("tick failed".to_string()));
    assert!(core.should_exit);

    core.process_message(&StateMessage::SetScreen(ScreenState::Cpu));
    core.process_message(&StateMessage::Update);
    core.handle_input(InputEvent::Char('3'));
    core.clear_screen_changed();
    assert!(core.should_exit, "The exit latch must never clear");
}

#[test]
fn test_loop_timing_decisions() {
    let core = LoopCore::new(250);
    assert_eq!(core.remaining_timeout(0), 250);
    assert_eq!(core.remaining_timeout(100), 150);
    assert_eq!(core.remaining_timeout(250), 0);
    assert_eq!(core.remaining_timeout(9999), 0, "The wait never goes negative");

    assert!(!core.should_tick(100));
    assert!(core.should_tick(250));

    let mut changed = LoopCore::new(250);
    changed.handle_input(InputEvent::Char('2'));
    assert!(changed.should_tick(0), "A screen change forces a redraw");
}

#[test]
fn test_control_screen_cursor_and_actions() {
    let mut screen = ControlScreen::new();
    assert_eq!(screen.handle_select(), ControlAction::AdjustCoolingDuty);

    screen.select_next();
    assert_eq!(screen.handle_select(), ControlAction::ToggleBoostMode);

    screen.select_next();
    assert_eq!(screen.handle_select(), ControlAction::SwitchPerformanceProfile);

    screen.select_next();
    assert_eq!(screen.selected_item, 2, "The cursor stops at the last item");

    screen.select_previous();
    screen.select_previous();
    screen.select_previous();
    assert_eq!(screen.selected_item, 0, "The cursor stops at the first item");
}

#[test]
fn test_control_screen_update() {
    let mut screen = ControlScreen::new();
    assert!(screen.stats.is_none());
    screen.update(ControlStats {
        fan_speed: 40,
        fan_mode: "Auto".to_string(),
        jetson_clocks: false,
        jetson_clocks_status: "inactive".to_string(),
        nvpmodel_id: 0,
        nvpmodel_name: "MAXN".to_string(),
    });
    assert!(screen.stats.is_some());
    assert_eq!(screen.stats.as_ref().unwrap().fan_speed, 40);
}

#[test]
fn test_info_screen_update() {
    let mut screen = InfoScreen::new();
    assert!(screen.stats.is_none());
    screen.update(InfoStats {
        board: SimpleBoardInfo {
            model: "Jetson".to_string(),
            jetpack: "6.0".to_string(),
            l4t: "36.3".to_string(),
        },
        cpu_cores: 6,
        cpu_governor: "schedutil".to_string(),
        gpu_name: "NVIDIA GPU".to_string(),
    });
    assert_eq!(screen.stats.as_ref().unwrap().cpu_cores, 6);
}

#[test]
fn test_memory_screen_update() {
    let mut screen = MemoryScreen::new();
    assert!(screen.stats.is_none());
    let full = MemoryStats::default();
    screen.update(MemoryScreenStats {
        memory: SimpleMemoryStats { ram_used: 1, ram_total: 2, swap_used: 0, swap_total: 0 },
        full_memory: full,
    });
    assert_eq!(screen.stats.as_ref().unwrap().memory.ram_total, 2);
}

#[test]
fn test_telemetry_exporter_new() {
    let exporter = TelemetryExporter::new("http://localhost:4318".to_string());
    assert_eq!(exporter.endpoint(), "http://localhost:4318");
}

#[test]
fn test_telemetry_exporter_endpoint() {
    let exporter = TelemetryExporter::new("http://grafana:4318/v1/metrics".to_string());
    assert!(exporter.endpoint().starts_with("http://"));
    assert!(exporter.endpoint().contains("4318"));
}
