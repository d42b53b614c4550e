use xkcd_lock::display::{names, sort_widest_first, Display};

fn display(name: &str, width: u32) -> Display {
    Display { name: name.to_string(), width }
}

#[test]
fn sorts_widest_first() {
    let sorted = sort_widest_first(vec![
        display("eDP-1", 1366),
        display("HDMI-1", 1920),
        display("DP-2", 3840),
    ]);
    assert_eq!(
        sorted,
        vec![display("DP-2", 3840), display("HDMI-1", 1920), display("eDP-1", 1366)]
    );
}

#[test]
fn equal_widths_keep_their_order() {
    let sorted = sort_widest_first(vec![
        display("a", 1920),
        display("b", 2560),
        display("c", 1920),
        display("d", 2560),
        display("e", 1920),
        display("f", 800),
    ]);
    assert_eq!(
        names(&sorted),
        vec!["b", "d", "a", "c", "e", "f"]
    );
}

#[test]
fn sorted_input_is_left_as_it_is() {
    let given = vec![display("a", 3), display("b", 2), display("c", 2), display("d", 1)];
    assert_eq!(sort_widest_first(given.clone()), given);
}

#[test]
fn ascending_input_is_reversed() {
    let sorted = sort_widest_first(vec![display("a", 1), display("b", 2), display("c", 3)]);
    assert_eq!(names(&sorted), vec!["c", "b", "a"]);
}

#[test]
fn extreme_widths_are_ordered() {
    let sorted = sort_widest_first(vec![
        display("none", 0),
        display("huge", u32::MAX),
        display("one", 1),
    ]);
    assert_eq!(names(&sorted), vec!["huge", "one", "none"]);
}

#[test]
fn no_display_and_one_display() {
    assert_eq!(sort_widest_first(Vec::new()), Vec::new());
    assert_eq!(sort_widest_first(vec![display("only", 7)]), vec![display("only", 7)]);
}

#[test]
fn sorting_keeps_every_display() {
    let given = vec![
        display("a", 5),
        display("a", 5),
        display("b", 9),
        display("c", 1),
        display("b", 9),
    ];
    let sorted = sort_widest_first(given.clone());
    assert_eq!(sorted.len(), given.len());
    for d in &given {
        let before = given.iter().filter(|g| *g == d).count();
        let after = sorted.iter().filter(|s| *s == d).count();
        assert_eq!(before, after);
    }
    for pair in sorted.windows(2) {
        assert!(pair[0].width >= pair[1].width);
    }
}

#[test]
fn names_come_in_the_displays_order() {
    let given = vec![display("x", 1), display("y", 2)];
    assert_eq!(names(&given), vec!["x", "y"]);
    assert_eq!(names(&[]), Vec::<String>::new());
}
