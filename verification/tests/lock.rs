use xkcd_lock::arguments::{argument_set, Argument};
use xkcd_lock::display::Display;
use xkcd_lock::enumerate::{after_swaymsg, Enumeration, SwayReply};
use xkcd_lock::error::Error;
use xkcd_lock::lock::plan;
use xkcd_lock::locker::Locker;

fn strings(items: &[&str]) -> Vec<String> {
    items.iter().map(|item| item.to_string()).collect()
}

#[test]
fn widest_display_shows_the_comic() {
    let reply = SwayReply::Outputs(vec![
        Display { name: "eDP-1".to_string(), width: 1366 },
        Display { name: "HDMI-1".to_string(), width: 1920 },
    ]);
    let names = match after_swaymsg(reply) {
        Enumeration::Found(names) => names,
        other => panic!("no displays: {:?}", other),
    };
    assert_eq!(
        argument_set(&names, "/tmp/comic.png", "/etc/wall.png"),
        vec![
            Argument { flag: "-i".to_string(), value: "HDMI-1:/tmp/comic.png".to_string() },
            Argument { flag: "-i".to_string(), value: "eDP-1:/etc/wall.png".to_string() },
        ]
    );
}

#[test]
fn first_of_the_widest_displays_shows_the_comic() {
    let reply = SwayReply::Outputs(vec![
        Display { name: "small".to_string(), width: 1280 },
        Display { name: "left".to_string(), width: 2560 },
        Display { name: "right".to_string(), width: 2560 },
    ]);
    let names = match after_swaymsg(reply) {
        Enumeration::Found(names) => names,
        other => panic!("no displays: {:?}", other),
    };
    let set = argument_set(&names, "comic.png", "wall.png");
    let values: Vec<&str> = set.iter().map(|argument| argument.value.as_str()).collect();
    assert_eq!(values, vec!["left:comic.png", "right:wall.png", "small:wall.png"]);
}

#[test]
fn plan_for_a_wayland_session() {
    let planned = plan(
        None,
        Some("wayland"),
        &strings(&["HDMI-1", "eDP-1"]),
        "/tmp/comic.png",
        "/etc/wall.png",
    )
    .unwrap();
    assert_eq!(planned.program, "swaylock");
    assert_eq!(
        planned.arguments,
        strings(&[
            "--ignore-empty-password",
            "--show-failed-attempts",
            "--daemonize",
            "-s",
            "center",
            "-i",
            "HDMI-1:/tmp/comic.png",
            "-i",
            "eDP-1:/etc/wall.png",
        ])
    );
}

#[test]
fn plan_for_an_x11_session() {
    let planned = plan(None, Some("x11"), &strings(&["VGA-1"]), "comic.png", "wall.png").unwrap();
    assert_eq!(planned.program, "i3lock");
    assert_eq!(
        planned.arguments,
        strings(&[
            "--textcolor=00000000",
            "--insidecolor=00000000",
            "--ringcolor=fafafaff",
            "--linecolor=00000000",
            "--keyhlcolor=fabb5cff",
            "--ringvercolor=fadd5cff",
            "--separatorcolor=00000000",
            "--insidevercolor=00000000",
            "--ringwrongcolor=f13459ff",
            "--insidewrongcolor=00000000",
            "-i",
            "VGA-1:comic.png",
        ])
    );
}

#[test]
fn plan_without_displays_has_the_style_only() {
    let planned = plan(None, Some("wayland"), &[], "comic.png", "wall.png").unwrap();
    assert_eq!(planned.program, "swaylock");
    assert_eq!(
        planned.arguments,
        strings(&[
            "--ignore-empty-password",
            "--show-failed-attempts",
            "--daemonize",
            "-s",
            "center",
        ])
    );
}

#[test]
fn explicit_legacy_locker_runs_in_a_wayland_session() {
    let planned = plan(
        Some(Locker::I3),
        Some("wayland"),
        &strings(&["eDP-1"]),
        "comic.png",
        "wall.png",
    )
    .unwrap();
    assert_eq!(planned.program, "i3lock");
    assert_eq!(planned.arguments.len(), 12);
    assert_eq!(planned.arguments[10..], strings(&["-i", "eDP-1:comic.png"]));
}

#[test]
fn explicit_locker_runs_without_a_session_type() {
    let planned = plan(Some(Locker::Sway), None, &[], "comic.png", "wall.png").unwrap();
    assert_eq!(planned.program, "swaylock");
}

#[test]
fn plan_fails_on_an_unknown_session() {
    assert_eq!(
        plan(None, Some("mir"), &strings(&["eDP-1"]), "comic.png", "wall.png"),
        Err(Error::UnsupportedSession("mir".to_string()))
    );
}

#[test]
fn plan_fails_without_choice_and_session() {
    assert_eq!(
        plan(None, None, &strings(&["eDP-1"]), "comic.png", "wall.png"),
        Err(Error::Configuration)
    );
}
