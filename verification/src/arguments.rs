//! The locker's command line: which image each display shows, and the fixed
//! style of each locker.

use vstd::prelude::*;
use crate::locker::Locker;
use crate::text::texts;

verus! {

/// One image assignment on a locker's command line: a flag and its value.
#[derive(Debug, Clone, PartialEq, Eq)]
pub struct Argument {
    pub flag: String,
    pub value: String,
}

impl View for Argument {
    type V = (Seq<char>, Seq<char>);

    open spec fn view(&self) -> (Seq<char>, Seq<char>) {
        (self.flag@, self.value@)
    }
}

/// A locker invocation: the program and its arguments, in order.
#[derive(Debug, Clone, PartialEq, Eq)]
pub struct Command {
    pub program: String,
    pub arguments: Vec<String>,
}

/// The views of a sequence of arguments.
pub open spec fn pairs(arguments: Seq<Argument>) -> Seq<(Seq<char>, Seq<char>)> {
    arguments.map_values(|a: Argument| a@)
}

/// The flag that assigns an image to a display.
pub open spec fn image_flag() -> Seq<char> {
    "-i"@
}

/// The image of the display at `position`: the comic for the first display,
/// the fallback for every other.
pub open spec fn assigned_image(position: int, comic: Seq<char>, fallback: Seq<char>) -> Seq<
    char,
> {
    if position == 0 {
        comic
    } else {
        fallback
    }
}

/// The value that assigns `image` to the display called `name`.
pub open spec fn image_value(name: Seq<char>, image: Seq<char>) -> Seq<char> {
    name + seq![':'] + image
}

/// One assignment for each display, in the displays' order.
pub open spec fn image_arguments(
    displays: Seq<Seq<char>>,
    comic: Seq<char>,
    fallback: Seq<char>,
) -> Seq<(Seq<char>, Seq<char>)> {
    Seq::new(
        displays.len(),
        |i: int| (image_flag(), image_value(displays[i], assigned_image(i, comic, fallback))),
    )
}

/// The arguments as a command line holds them: each flag, then its value.
pub open spec fn flattened(arguments: Seq<(Seq<char>, Seq<char>)>) -> Seq<Seq<char>> {
    Seq::new(
        2 * arguments.len(),
        |i: int|
            if i % 2 == 0 {
                arguments[i / 2].0
            } else {
                arguments[i / 2].1
            },
    )
}

/// The program that runs `locker`.
pub open spec fn program_of(locker: Locker) -> Seq<char> {
    match locker {
        Locker::Sway => "swaylock"@,
        Locker::I3 => "i3lock"@,
    }
}

/// The arguments that give `locker` its look, whatever the displays.
pub open spec fn style_of(locker: Locker) -> Seq<Seq<char>> {
    match locker {
        Locker::Sway => seq![
            "--ignore-empty-password"@,
            "--show-failed-attempts"@,
            "--daemonize"@,
            "-s"@,
            "center"@,
        ],
        Locker::I3 => seq![
            "--textcolor=00000000"@,
            "--insidecolor=00000000"@,
            "--ringcolor=fafafaff"@,
            "--linecolor=00000000"@,
            "--keyhlcolor=fabb5cff"@,
            "--ringvercolor=fadd5cff"@,
            "--separatorcolor=00000000"@,
            "--insidevercolor=00000000"@,
            "--ringwrongcolor=f13459ff"@,
            "--insidewrongcolor=00000000"@,
        ],
    }
}

/// Assigns `image` to the display called `name`.
pub fn image_argument(name: &str, image: &str) -> (argument: Argument)
    ensures
        argument@ == (image_flag(), image_value(name@, image@)),
{
    proof {
        reveal_strlit(":");
    }
    let mut value = name.to_owned();
    value.append(":");
    value.append(image);
    Argument { flag: "-i".to_owned(), value }
}

/// Pairs every display with its image: the first with the comic, the others
/// with the fallback. The displays keep their order.
pub fn argument_set(displays: &[String], comic: &str, fallback: &str) -> (set: Vec<Argument>)
    ensures
        pairs(set@) == image_arguments(texts(displays@), comic@, fallback@),
        set@.len() == displays@.len(),
        forall|i: int|
            0 <= i < set@.len() ==> (#[trigger] set@[i]).flag@ == image_flag() && set@[i].value@
                == image_value(
                displays@[i]@,
                if i == 0 {
                    comic@
                } else {
                    fallback@
                },
            ),
{
    let mut set: Vec<Argument> = Vec::new();
    for i in 0..displays.len()
        invariant
            set.len() == i,
            forall|k: int|
                0 <= k < i ==> (#[trigger] set@[k])@ == (
                    image_flag(),
                    image_value(displays@[k]@, assigned_image(k, comic@, fallback@)),
                ),
    {
        let image = if i == 0 {
            comic
        } else {
            fallback
        };
        set.push(image_argument(displays[i].as_str(), image));
    }
    set
}

/// Lays the arguments out as a command line holds them.
pub fn flatten(set: &[Argument]) -> (line: Vec<String>)
    ensures
        texts(line@) == flattened(pairs(set@)),
{
    let mut line: Vec<String> = Vec::new();
    for i in 0..set.len()
        invariant
            line.len() == 2 * i,
            forall|j: int|
                0 <= j < 2 * i ==> (#[trigger] line@[j])@ == flattened(pairs(set@))[j],
    {
        line.push(set[i].flag.clone());
        line.push(set[i].value.clone());
    }
    line
}

/// Appends the strings of `tail` to `line`.
fn extend(line: &mut Vec<String>, tail: &[String])
    ensures
        texts(final(line)@) == texts(old(line)@) + texts(tail@),
{
    let ghost before = line@;
    for i in 0..tail.len()
        invariant
            line@ == before + tail@.take(i as int),
    {
        line.push(tail[i].clone());
    }
}

/// The `swaylock` invocation for a flattened argument set.
pub fn swaylock(displays: &[String]) -> (command: Command)
    ensures
        command.program@ == program_of(Locker::Sway),
        texts(command.arguments@) == style_of(Locker::Sway) + texts(displays@),
{
    let mut arguments: Vec<String> = Vec::new();
    arguments.push("--ignore-empty-password".to_owned());
    arguments.push("--show-failed-attempts".to_owned());
    arguments.push("--daemonize".to_owned());
    arguments.push("-s".to_owned());
    arguments.push("center".to_owned());
    extend(&mut arguments, displays);
    Command { program: "swaylock".to_owned(), arguments }
}

/// The `i3lock` invocation for a flattened argument set.
pub fn i3lock(displays: &[String]) -> (command: Command)
    ensures
        command.program@ == program_of(Locker::I3),
        texts(command.arguments@) == style_of(Locker::I3) + texts(displays@),
{
    let mut arguments: Vec<String> = Vec::new();
    arguments.push("--textcolor=00000000".to_owned());
    arguments.push("--insidecolor=00000000".to_owned());
    arguments.push("--ringcolor=fafafaff".to_owned());
    arguments.push("--linecolor=00000000".to_owned());
    arguments.push("--keyhlcolor=fabb5cff".to_owned());
    arguments.push("--ringvercolor=fadd5cff".to_owned());
    arguments.push("--separatorcolor=00000000".to_owned());
    arguments.push("--insidevercolor=00000000".to_owned());
    arguments.push("--ringwrongcolor=f13459ff".to_owned());
    arguments.push("--insidewrongcolor=00000000".to_owned());
    extend(&mut arguments, displays);
    Command { program: "i3lock".to_owned(), arguments }
}

/// The invocation of `locker` for a flattened argument set.
pub fn command(locker: Locker, displays: &[String]) -> (command: Command)
    ensures
        command.program@ == program_of(locker),
        texts(command.arguments@) == style_of(locker) + texts(displays@),
{
    match locker {
        Locker::Sway => swaylock(displays),
        Locker::I3 => i3lock(displays),
    }
}

} // verus!
