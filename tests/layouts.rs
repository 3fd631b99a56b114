use sway_displays::cli::{confirms_overwrite, is_yes, Action, UserCommand};
use sway_displays::config::Config;
use sway_displays::output::{CustomConfigIdentfier, DefaultConfigIdentifier, Output, OutputIdentifier, Rect, Workspace};
use sway_displays::properties::OutputProperties;
use sway_displays::settings::Settings;

fn output(name: &str, make: &str, model: &str, serial: &str) -> Output {
    Output {
        name: name.to_string(),
        make: make.to_string(),
        model: model.to_string(),
        serial: serial.to_string(),
        active: true,
        rect: Rect { x: 0, y: 0, width: 0, height: 0 },
        transform: None,
        scale_milli: None,
        refresh: None,
    }
}

fn workspace(name: &str, output: &str) -> Workspace {
    Workspace { name: name.to_string(), output: output.to_string() }
}

fn bare_properties() -> OutputProperties {
    OutputProperties {
        active: None,
        resolution: None,
        position: None,
        rotation: None,
        scale_milli: None,
        refresh_rate: None,
        workspaces: None,
    }
}

fn texts(identifier: &DefaultConfigIdentifier) -> Vec<String> {
    identifier.0.iter().map(|i| i.0.clone()).collect()
}

#[test]
fn identifier_joins_make_model_serial() {
    let o = output("DP-1", "Dell", "U2720Q", "ABC123");
    assert_eq!(OutputIdentifier::of_output(&o).0, "Dell U2720Q ABC123");
    let empty_serial = output("eDP-1", "BOE", "0x095F", "");
    assert_eq!(OutputIdentifier::of_output(&empty_serial).0, "BOE 0x095F ");
}

#[test]
fn topology_ignores_listing_order() {
    let a = output("DP-1", "Dell", "U2720Q", "1");
    let b = output("HDMI-A-1", "Acer", "X", "2");
    let c = output("eDP-1", "BOE", "Panel", "3");
    let first = DefaultConfigIdentifier::from_outputs(&vec![a.clone(), b.clone(), c.clone()]);
    let second = DefaultConfigIdentifier::from_outputs(&vec![c.clone(), a.clone(), b.clone()]);
    assert_eq!(texts(&first), texts(&second));
    assert_eq!(texts(&first), vec!["Acer X 2", "BOE Panel 3", "Dell U2720Q 1"]);
    assert_eq!(first.to_string(), "[Acer X 2, BOE Panel 3, Dell U2720Q 1]");
}

#[test]
fn topology_of_no_displays_is_empty() {
    let identifier = DefaultConfigIdentifier::from_outputs(&vec![]);
    assert!(identifier.0.is_empty());
    assert_eq!(identifier.to_string(), "[]");
}

#[test]
fn topology_orders_by_code_point() {
    let upper = output("a", "B", "x", "");
    let lower = output("b", "a", "x", "");
    let prefix = output("c", "B", "", "");
    let identifier = DefaultConfigIdentifier::from_outputs(&vec![lower, upper, prefix]);
    assert_eq!(texts(&identifier), vec!["B  ", "B x ", "a x "]);
}

#[test]
fn capture_and_command_for_scenario_display() {
    let mut a = output("A", "Maker", "A", "");
    a.rect = Rect { x: 0, y: 0, width: 1920, height: 1080 };
    a.refresh = Some(60);
    a.scale_milli = Some(1000);
    a.transform = Some("normal".to_string());
    let b = output("B", "Maker", "B", "");
    let outputs = vec![a.clone(), b];
    let workspaces = vec![workspace("1", "A"), workspace("3", "B"), workspace("2", "A")];
    let config = Config::from_sway_outputs_workspaces(&outputs, &workspaces);
    let props = config.get(&OutputIdentifier::of_output(&a)).expect("display A is captured");
    assert_eq!(props.to_sway_output_command(&"A".to_string()), "output A enable mode 1920x1080@60Hz");
    assert_eq!(props.to_sway_workspace_command(&"A".to_string()), "workspace 1 output A;workspace 2 output A");
    let batch = config.sway_commands(&vec![a]);
    assert_eq!(batch, "output A enable mode 1920x1080@60Hz;workspace 1 output A;workspace 2 output A");
}

#[test]
fn replay_skips_stored_display_that_is_absent() {
    let a = output("A", "Maker", "A", "");
    let c = output("C", "Maker", "C", "");
    let config = Config::from_sway_outputs_workspaces(&vec![a.clone(), c], &vec![workspace("9", "C")]);
    let batch = config.sway_commands(&vec![a]);
    assert_eq!(batch, "output A enable;");
    assert!(!batch.contains('C'));
    assert!(!batch.contains('9'));
}

#[test]
fn replay_against_unknown_displays_is_empty() {
    let config = Config::from_sway_outputs_workspaces(&vec![output("A", "M", "A", "")], &vec![]);
    assert_eq!(config.sway_commands(&vec![output("Z", "M", "Z", "")]), "");
}

#[test]
fn replay_uses_live_name_not_identity() {
    let stored = output("DP-1", "Dell", "U", "7");
    let config = Config::from_sway_outputs_workspaces(&vec![stored], &vec![workspace("web", "DP-1")]);
    let moved = output("DP-3", "Dell", "U", "7");
    assert_eq!(config.sway_commands(&vec![moved]), "output DP-3 enable;workspace web output DP-3");
}

#[test]
fn capture_replay_round_trip_restores_each_display() {
    let mut a = output("DP-1", "Dell", "U", "1");
    a.rect = Rect { x: 0, y: 0, width: 2560, height: 1440 };
    a.scale_milli = Some(1500);
    let mut b = output("DP-2", "Dell", "U", "2");
    b.rect = Rect { x: 1707, y: 0, width: 1920, height: 1080 };
    b.transform = Some("90".to_string());
    b.refresh = Some(75);
    let outputs = vec![a, b];
    let config = Config::from_sway_outputs_workspaces(&outputs, &vec![workspace("1", "DP-2")]);
    let first = config.sway_commands(&outputs);
    let second = config.sway_commands(&outputs);
    assert_eq!(first, second);
    assert_eq!(
        first,
        "output DP-1 enable res 2560x1440 scale 1.5;;output DP-2 enable mode 1920x1080@75Hz pos 1707 0 transform 90;workspace 1 output DP-2"
    );
}

#[test]
fn defaults_are_not_captured() {
    let mut o = output("X", "M", "X", "");
    o.scale_milli = Some(1009);
    o.transform = Some("normal".to_string());
    let props = OutputProperties::from_output(&o);
    assert_eq!(props.active, Some(true));
    assert!(props.resolution.is_none());
    assert!(props.position.is_none());
    assert!(props.rotation.is_none());
    assert!(props.scale_milli.is_none());
    assert!(props.refresh_rate.is_none());
    assert!(props.workspaces.is_none());
    assert_eq!(props.to_sway_output_command(&"X".to_string()), "output X enable");
}

#[test]
fn non_defaults_are_captured() {
    let mut o = output("X", "M", "X", "");
    o.active = false;
    o.rect = Rect { x: 0, y: 5, width: 0, height: 10 };
    o.scale_milli = Some(989);
    o.transform = Some("flipped-180".to_string());
    let props = OutputProperties::from_output(&o);
    assert_eq!(props.active, Some(false));
    assert_eq!(props.resolution, Some((0, 10)));
    assert_eq!(props.position, Some((0, 5)));
    assert_eq!(props.rotation.as_deref(), Some("flipped-180"));
    assert_eq!(props.scale_milli, Some(989));
    assert_eq!(
        props.to_sway_output_command(&"X".to_string()),
        "output X disable res 0x10 pos 0 5 transform flipped-180 scale 0.989"
    );
}

#[test]
fn scale_is_written_as_shortest_decimal() {
    let mut props = bare_properties();
    let name = "O".to_string();
    props.scale_milli = Some(2000);
    assert_eq!(props.to_sway_output_command(&name), "output O scale  2");
    props.scale_milli = Some(1250);
    assert_eq!(props.to_sway_output_command(&name), "output O scale 1.25");
    props.scale_milli = Some(1200);
    assert_eq!(props.to_sway_output_command(&name), "output O scale 1.2");
    props.scale_milli = Some(12000);
    assert_eq!(props.to_sway_output_command(&name), "output O scale 12");
    props.scale_milli = Some(-1000);
    assert_eq!(props.to_sway_output_command(&name), "output O scale -1");
    props.scale_milli = Some(1005);
    assert_eq!(props.to_sway_output_command(&name), "output O scale 1.005");
}

#[test]
fn negative_and_extreme_numbers_are_written_in_full() {
    let mut props = bare_properties();
    props.position = Some((-1920, i32::MIN));
    props.resolution = Some((i32::MAX, 1));
    assert_eq!(
        props.to_sway_output_command(&"O".to_string()),
        "output O res 2147483647x1 pos -1920 -2147483648"
    );
}

#[test]
fn refresh_without_resolution_is_not_written() {
    let mut props = bare_properties();
    props.refresh_rate = Some(144);
    assert_eq!(props.to_sway_output_command(&"O".to_string()), "output O");
}

#[test]
fn later_display_with_same_identity_wins() {
    let mut first = output("DP-1", "M", "X", "");
    first.rect = Rect { x: 10, y: 0, width: 0, height: 0 };
    let second = output("DP-2", "M", "X", "");
    let config = Config::from_sway_outputs_workspaces(&vec![first, second.clone()], &vec![]);
    assert_eq!(config.entries().len(), 1);
    let props = config.get(&OutputIdentifier::of_output(&second)).unwrap();
    assert!(props.position.is_none());
}

#[test]
fn set_with_unknown_topology_sends_nothing() {
    let settings = Settings::new();
    let outputs = vec![output("A", "M", "A", "")];
    assert!(settings.default_commands(&outputs).is_none());
    let name = CustomConfigIdentfier("desk".to_string());
    assert!(settings.custom_commands(&name, &outputs).is_none());
}

#[test]
fn set_with_known_topology_replays() {
    let mut settings = Settings::new();
    let a = output("A", "M", "A", "");
    let b = output("B", "M", "B", "");
    let saved_order = vec![a.clone(), b.clone()];
    let config = Config::from_sway_outputs_workspaces(&saved_order, &vec![workspace("1", "B")]);
    let identifier = DefaultConfigIdentifier::from_outputs(&saved_order);
    assert!(settings.save_default(identifier, config, false));
    let batch = settings.default_commands(&vec![b, a]).expect("topology is stored");
    assert_eq!(batch, "output B enable;workspace 1 output B;output A enable;");
}

#[test]
fn declined_overwrite_keeps_store() {
    let mut settings = Settings::new();
    let a = output("A", "M", "A", "");
    let outputs = vec![a.clone()];
    let key = || DefaultConfigIdentifier::from_outputs(&outputs);
    let first_saved = Config::from_sway_outputs_workspaces(&outputs, &vec![]);
    assert!(!settings.has_default(&key()));
    assert!(settings.save_default(key(), first_saved, false));
    assert!(settings.has_default(&key()));
    let replacement = Config::from_sway_outputs_workspaces(&outputs, &vec![workspace("5", "A")]);
    assert!(!settings.save_default(key(), replacement, false));
    assert_eq!(settings.default_commands(&outputs).unwrap(), "output A enable;");
    let replacement = Config::from_sway_outputs_workspaces(&outputs, &vec![workspace("5", "A")]);
    assert!(settings.save_default(key(), replacement, true));
    assert_eq!(settings.default_commands(&outputs).unwrap(), "output A enable;workspace 5 output A");
    assert_eq!(settings.default_configurations().len(), 1);
}

#[test]
fn custom_overwrite_gate() {
    let mut settings = Settings::new();
    let outputs = vec![output("A", "M", "A", "")];
    let name = || CustomConfigIdentfier("desk".to_string());
    let first = Config::from_sway_outputs_workspaces(&outputs, &vec![]);
    assert!(settings.save_custom(name(), first, false));
    let second = Config::from_sway_outputs_workspaces(&outputs, &vec![workspace("2", "A")]);
    assert!(!settings.save_custom(name(), second, false));
    assert_eq!(settings.custom_commands(&name(), &outputs).unwrap(), "output A enable;");
    assert!(settings.has_custom(&name()));
    assert!(!settings.has_default(&DefaultConfigIdentifier::from_outputs(&outputs)));
    assert_eq!(settings.custom_configurations().len(), 1);
    assert_eq!(name().to_string(), "desk");
}

#[test]
fn overwrite_answer_is_read_loosely() {
    assert!(confirms_overwrite(&"y\n".to_string()));
    assert!(confirms_overwrite(&"  YES \n".to_string()));
    assert!(confirms_overwrite(&"Yes".to_string()));
    assert!(!confirms_overwrite(&"n\n".to_string()));
    assert!(!confirms_overwrite(&"yess".to_string()));
    assert!(!confirms_overwrite(&"".to_string()));
    assert!(is_yes(&"yes".to_string()));
    assert!(!is_yes(&"Y".to_string()));
}

#[test]
fn default_command_is_invalid() {
    let command = UserCommand::default();
    assert!(matches!(command.action, Action::Invalid));
    assert!(command.config_file_path.is_none());
}

