use grey::builder::{App, Commands};

fn greet(_app: &App) -> u8 {
    0
}

fn first(_app: &App) -> u8 {
    7
}

fn second(_app: &App) -> u8 {
    42
}

fn name_length(app: &App) -> u8 {
    app.name.len() as u8
}

const HEADER: &str = "\ntest 1.0.0\n\nUsage:\n command [options] [arguments]\n\nCommands:\n";
const VERSION_LINE: &str = " version        Display this application version\n";

fn demo() -> App {
    let mut app: App = App::new();
    app.name("test");
    app.version("1.0.0");
    app.description("test app");
    app
}

#[test]
fn test_empty_app() {
    let app: App = App::new();
    assert_eq!(app.name, "");
    assert_eq!(app.desc, "");
    assert_eq!(app.version, "");
}

#[test]
fn test_demo_app() {
    let mut app: App = App::new();
    app.name("test");
    app.version("1.0.0");
    app.description("test app");
    assert_eq!(app.name, "test");
    assert_eq!(app.version, "1.0.0");
    assert_eq!(app.desc, "test app");
}

#[test]
fn setters_in_another_order() {
    let mut app: App = App::new();
    app.description("d");
    app.version("v2");
    app.name("n");
    app.name("renamed");
    assert_eq!(app.name, "renamed");
    assert_eq!(app.desc, "d");
    assert_eq!(app.version, "v2");
}

#[test]
fn registered_handler_gives_its_status() {
    let mut commands: Commands = Commands::new();
    commands.add("greet", greet, "greets");
    let r = demo().run("greet".to_string(), commands);
    assert_eq!(r.code, 0);
    assert_eq!(r.stdout, "");
    assert_eq!(r.stderr, "");
}

#[test]
fn handler_receives_the_app() {
    let mut commands: Commands = Commands::new();
    commands.add("len", name_length, "length of the name");
    let r = demo().run("len".to_string(), commands);
    assert_eq!(r.code, 4);
}

#[test]
fn unknown_command_in_empty_registry() {
    let mut commands: Commands = Commands::new();
    commands.add("build", greet, "builds project");
    let r = demo().run("nope".to_string(), commands);
    assert_eq!(r.code, 1);
    assert_eq!(r.stdout, "");
    assert_eq!(r.stderr, "error: unknown command 'nope'\n");
}

#[test]
fn unknown_command_in_fresh_registry() {
    let commands: Commands = Commands::new();
    let r = App::new().run("nope".to_string(), commands);
    assert_eq!(r.code, 1);
    assert_eq!(r.stderr, "error: unknown command 'nope'\n");
}

#[test]
fn empty_command_lists_commands() {
    let mut commands: Commands = Commands::new();
    commands.add("build", greet, "builds project");
    let r = demo().run(String::new(), commands);
    assert_eq!(r.code, 1);
    assert_eq!(r.stderr, "");
    assert!(r.stdout.contains("\n build          builds project\n"));
    let expected = format!("{}{}{}", HEADER, VERSION_LINE, " build          builds project\n");
    assert_eq!(r.stdout, expected);
}

#[test]
fn long_name_is_not_cut() {
    let mut commands: Commands = Commands::new();
    commands.add("a-very-long-command", greet, "desc");
    let r = demo().run(String::new(), commands);
    let expected = format!("{}{}{}", HEADER, VERSION_LINE, " a-very-long-commanddesc\n");
    assert_eq!(r.stdout, expected);
}

#[test]
fn name_of_fifteen_gets_no_padding() {
    let mut commands: Commands = Commands::new();
    commands.add("fifteen-letters", greet, "x");
    let r = demo().run(String::new(), commands);
    assert!(r.stdout.ends_with(" fifteen-lettersx\n"));
}

#[test]
fn built_in_version_command() {
    let commands: Commands = Commands::new();
    let r = demo().run("version".to_string(), commands);
    assert_eq!(r.code, 0);
    assert_eq!(r.stdout, "1.0.0\n");
    assert_eq!(r.stderr, "");
}

#[test]
fn last_registration_wins() {
    let mut commands: Commands = Commands::new();
    commands.add("dup", first, "first");
    commands.add("dup", second, "second");
    let r = demo().run(String::new(), commands);
    let expected = format!("{}{}{}", HEADER, VERSION_LINE, " dup            second\n");
    assert_eq!(r.stdout, expected);

    let mut commands: Commands = Commands::new();
    commands.add("dup", first, "first");
    commands.add("dup", second, "second");
    let r = demo().run("dup".to_string(), commands);
    assert_eq!(r.code, 42);
}

#[test]
fn built_in_version_can_be_replaced() {
    let mut commands: Commands = Commands::new();
    commands.add("version", second, "custom");
    let r = demo().run("version".to_string(), commands);
    assert_eq!(r.code, 42);
    assert_eq!(r.stdout, "");
}

#[test]
fn empty_name_can_be_registered_but_not_dispatched() {
    let mut commands: Commands = Commands::new();
    commands.add("", second, "blank");
    let r = demo().run(String::new(), commands);
    assert_eq!(r.code, 1);
    assert!(r.stdout.ends_with("                blank\n"));
}
