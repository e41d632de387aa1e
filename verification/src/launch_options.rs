//! Command line options.
use crate::grid::cell::str_from_utf8;
use crate::input::paste::{control_char, is_control};
use crate::text::{chars_of, same_bytes};
use vstd::prelude::*;
use vstd::utf8::{decode_utf8, encode_utf8, valid_utf8};

verus! {

/// What to start the terminal with. Paths and arguments are bytes, since they
/// need not be text.
#[derive(Debug)]
pub struct LaunchOptions {
    pub command: Vec<Vec<u8>>,
    pub working_directory: Option<Vec<u8>>,
    pub app_id: Option<String>,
    pub title: Option<String>,
}

#[derive(Debug)]
pub enum LaunchAction {
    Run(LaunchOptions),
    Help,
    Version,
}

/// An option that takes a value.
#[derive(Debug, Clone, Copy, PartialEq, Eq, Structural)]
pub enum OptionName {
    WorkingDirectory,
    Dir,
    AppId,
    Title,
}

#[derive(Debug, Clone, Copy, PartialEq, Eq, Structural)]
pub enum LaunchError {
    MissingCommand,
    /// The argument at this index is no option.
    UnknownOption(usize),
    MissingValue(OptionName),
    NotUtf8(OptionName),
    HasControls(OptionName),
}

pub ghost struct OptionsView {
    pub command: Seq<Seq<u8>>,
    pub working_directory: Option<Seq<u8>>,
    pub app_id: Option<Seq<char>>,
    pub title: Option<Seq<char>>,
}

/// What a command line asks for.
pub ghost enum Parsed {
    Run(OptionsView),
    Help,
    Version,
    Failed(LaunchError),
}

/// What each argument holds.
pub open spec fn argument_views(arguments: Seq<Vec<u8>>) -> Seq<Seq<u8>> {
    Seq::new(arguments.len(), |i: int| arguments[i]@)
}

impl View for LaunchOptions {
    type V = OptionsView;

    open spec fn view(&self) -> OptionsView {
        OptionsView {
            command: argument_views(self.command@),
            working_directory: match self.working_directory {
                Some(path) => Some(path@),
                None => None,
            },
            app_id: match self.app_id {
                Some(text) => Some(text@),
                None => None,
            },
            title: match self.title {
                Some(text) => Some(text@),
                None => None,
            },
        }
    }
}

/// The result of reading a command line, as it is reported.
pub open spec fn outcome(result: Result<LaunchAction, LaunchError>) -> Parsed {
    match result {
        Ok(LaunchAction::Run(options)) => Parsed::Run(options@),
        Ok(LaunchAction::Help) => Parsed::Help,
        Ok(LaunchAction::Version) => Parsed::Version,
        Err(error) => Parsed::Failed(error),
    }
}

impl OptionName {
    pub open spec fn spelling(self) -> Seq<char> {
        match self {
            OptionName::WorkingDirectory => "--working-directory"@,
            OptionName::Dir => "--dir"@,
            OptionName::AppId => "--app-id"@,
            OptionName::Title => "--title"@,
        }
    }

    pub fn text(self) -> (r: &'static str)
        ensures
            r@ == self.spelling(),
    {
        match self {
            OptionName::WorkingDirectory => "--working-directory",
            OptionName::Dir => "--dir",
            OptionName::AppId => "--app-id",
            OptionName::Title => "--title",
        }
    }
}

/// The option that a name stands for.
pub open spec fn option_named(name: Seq<u8>) -> Option<OptionName> {
    if name == encode_utf8("--working-directory"@) {
        Some(OptionName::WorkingDirectory)
    } else if name == encode_utf8("--dir"@) {
        Some(OptionName::Dir)
    } else if name == encode_utf8("--app-id"@) {
        Some(OptionName::AppId)
    } else if name == encode_utf8("--title"@) {
        Some(OptionName::Title)
    } else {
        None
    }
}

/// Where the first equals sign stands, or the length if there is none.
pub open spec fn equals_at(argument: Seq<u8>) -> int
    decreases argument.len(),
{
    if argument.len() == 0 || argument[0] == 61 {
        0
    } else {
        1 + equals_at(argument.drop_first())
    }
}

/// The name of an option, before the first equals sign.
pub open spec fn name_part(argument: Seq<u8>) -> Seq<u8> {
    argument.take(equals_at(argument))
}

/// The value of an option behind the first equals sign.
pub open spec fn inline_value(argument: Seq<u8>) -> Option<Seq<u8>> {
    if equals_at(argument) < argument.len() {
        Some(argument.skip(equals_at(argument) + 1))
    } else {
        None
    }
}

/// No option was given yet.
pub open spec fn no_options() -> OptionsView {
    OptionsView { command: Seq::empty(), working_directory: None, app_id: None, title: None }
}

pub open spec fn starts_command(argument: Seq<u8>) -> bool {
    argument == encode_utf8("-e"@) || argument == encode_utf8("--execute"@) || argument
        == encode_utf8("--"@)
}

pub open spec fn has_controls(text: Seq<char>) -> bool {
    exists|i: int| 0 <= i < text.len() && is_control(#[trigger] text[i])
}

/// What the arguments from `at` on ask for, besides the options read so far.
pub open spec fn parsed(arguments: Seq<Seq<u8>>, at: int, options: OptionsView) -> Parsed
    decreases arguments.len() - at,
{
    if at >= arguments.len() {
        Parsed::Run(options)
    } else {
        let argument = arguments[at];
        let command = arguments.skip(at + 1);
        if starts_command(argument) {
            if command.len() == 0 || command[0].len() == 0 {
                Parsed::Failed(LaunchError::MissingCommand)
            } else {
                Parsed::Run(OptionsView { command, ..options })
            }
        } else if argument == encode_utf8("-h"@) || argument == encode_utf8("--help"@) {
            Parsed::Help
        } else if argument == encode_utf8("-V"@) || argument == encode_utf8("--version"@) {
            Parsed::Version
        } else {
            match option_named(name_part(argument)) {
                None => Parsed::Failed(LaunchError::UnknownOption(at as usize)),
                Some(name) => {
                    let inline = inline_value(argument);
                    let next = if inline is Some { at + 1 } else { at + 2 };
                    let value = if inline is Some {
                        inline->0
                    } else if at + 1 < arguments.len() {
                        arguments[at + 1]
                    } else {
                        Seq::empty()
                    };
                    if value.len() == 0 {
                        Parsed::Failed(LaunchError::MissingValue(name))
                    } else if name == OptionName::WorkingDirectory || name == OptionName::Dir {
                        parsed(
                            arguments,
                            next,
                            OptionsView { working_directory: Some(value), ..options },
                        )
                    } else if !valid_utf8(value) {
                        Parsed::Failed(LaunchError::NotUtf8(name))
                    } else if has_controls(decode_utf8(value)) {
                        Parsed::Failed(LaunchError::HasControls(name))
                    } else if name == OptionName::AppId {
                        parsed(
                            arguments,
                            next,
                            OptionsView { app_id: Some(decode_utf8(value)), ..options },
                        )
                    } else {
                        parsed(
                            arguments,
                            next,
                            OptionsView { title: Some(decode_utf8(value)), ..options },
                        )
                    }
                },
            }
        }
    }
}

/// Arguments behind the start of a command belong to it, whatever they look
/// like.
pub proof fn law_commands_are_passed_unchanged(
    arguments: Seq<Seq<u8>>,
    at: int,
    options: OptionsView,
)
    requires
        0 <= at < arguments.len() - 1,
        starts_command(arguments[at]),
        arguments[at + 1].len() > 0,
    ensures
        parsed(arguments, at, options) == Parsed::Run(
            OptionsView { command: arguments.skip(at + 1), ..options },
        ),
{
    assert(arguments.skip(at + 1)[0] == arguments[at + 1]);
}

fn find_equals(argument: &Vec<u8>) -> (r: usize)
    ensures
        r == equals_at(argument@),
        r <= argument@.len(),
{
    let mut i: usize = 0;
    proof {
        assert(argument@.skip(0) =~= argument@);
    }
    while i < argument.len() && argument[i] != 61
        invariant
            i <= argument@.len(),
            equals_at(argument@) == i + equals_at(argument@.skip(i as int)),
        decreases argument@.len() - i,
    {
        proof {
            assert(argument@.skip(i as int)[0] == argument@[i as int]);
            assert(argument@.skip(i as int).drop_first() =~= argument@.skip(i + 1));
        }
        i += 1;
    }
    proof {
        if i < argument@.len() {
            assert(argument@.skip(i as int)[0] == argument@[i as int]);
        }
    }
    i
}

fn named_option(name: &[u8]) -> (r: Option<OptionName>)
    ensures
        r == option_named(name@),
{
    if same_bytes(name, "--working-directory") {
        Some(OptionName::WorkingDirectory)
    } else if same_bytes(name, "--dir") {
        Some(OptionName::Dir)
    } else if same_bytes(name, "--app-id") {
        Some(OptionName::AppId)
    } else if same_bytes(name, "--title") {
        Some(OptionName::Title)
    } else {
        None
    }
}

fn copy_bytes(bytes: &[u8]) -> (r: Vec<u8>)
    ensures
        r@ == bytes@,
{
    let mut copy: Vec<u8> = Vec::new();
    crate::decimal::push_bytes(&mut copy, bytes);
    proof {
        assert(copy@ =~= bytes@);
    }
    copy
}

fn copy_arguments(arguments: &Vec<Vec<u8>>, from: usize) -> (r: Vec<Vec<u8>>)
    requires
        from <= arguments@.len(),
    ensures
        argument_views(r@) == argument_views(arguments@).skip(from as int),
{
    let mut copied: Vec<Vec<u8>> = Vec::new();
    let mut i: usize = from;
    while i < arguments.len()
        invariant
            from <= i <= arguments@.len(),
            copied@.len() == i - from,
            forall|j: int| 0 <= j < copied@.len() ==> (#[trigger] copied@[j])@ == arguments@[from
                + j]@,
        decreases arguments@.len() - i,
    {
        copied.push(copy_bytes(arguments[i].as_slice()));
        i += 1;
    }
    proof {
        assert(argument_views(copied@) =~= argument_views(arguments@).skip(from as int));
    }
    copied
}

fn contains_control(text: &str) -> (r: bool)
    ensures
        r == has_controls(text@),
{
    let chars: Vec<char> = chars_of(text);
    let mut i: usize = 0;
    while i < chars.len()
        invariant
            i <= chars@.len(),
            chars@ == text@,
            forall|j: int| 0 <= j < i ==> !is_control(#[trigger] text@[j]),
        decreases chars@.len() - i,
    {
        if control_char(chars[i]) {
            proof {
                assert(is_control(text@[i as int]));
            }
            return true;
        }
        i += 1;
    }
    false
}

/// Read a command line, without the name of the program.
pub fn parse(arguments: &Vec<Vec<u8>>) -> (r: Result<LaunchAction, LaunchError>)
    ensures
        outcome(r) == parsed(argument_views(arguments@), 0, no_options()),
{
    let ghost views = argument_views(arguments@);
    let mut options = LaunchOptions {
        command: Vec::new(),
        working_directory: None,
        app_id: None,
        title: None,
    };
    let mut at: usize = 0;
    proof {
        assert(options@.command =~= Seq::<Seq<u8>>::empty());
    }
    while at < arguments.len()
        invariant
            at <= arguments@.len() + 1,
            views == argument_views(arguments@),
            parsed(views, at as int, options@) == parsed(views, 0, no_options()),
        decreases arguments@.len() + 1 - at,
    {
        let argument: &Vec<u8> = &arguments[at];
        assert(views[at as int] == argument@);
        if same_bytes(argument.as_slice(), "-e") || same_bytes(argument.as_slice(), "--execute")
            || same_bytes(argument.as_slice(), "--") {
            let command: Vec<Vec<u8>> = copy_arguments(arguments, at + 1);
            assert(argument_views(command@).len() == command@.len());
            if command.len() == 0 {
                return Err(LaunchError::MissingCommand);
            }
            assert(argument_views(command@)[0] == command@[0]@);
            if command[0].len() == 0 {
                return Err(LaunchError::MissingCommand);
            }
            options.command = command;
            return Ok(LaunchAction::Run(options));
        }
        if same_bytes(argument.as_slice(), "-h") || same_bytes(argument.as_slice(), "--help") {
            return Ok(LaunchAction::Help);
        }
        if same_bytes(argument.as_slice(), "-V") || same_bytes(argument.as_slice(), "--version") {
            return Ok(LaunchAction::Version);
        }
        let split: usize = find_equals(argument);
        let name_bytes: &[u8] = vstd::slice::slice_subrange(argument.as_slice(), 0, split);
        proof {
            assert(name_bytes@ =~= name_part(argument@));
        }
        let name: OptionName = match named_option(name_bytes) {
            Some(name) => name,
            None => {
                return Err(LaunchError::UnknownOption(at));
            },
        };
        let mut next: usize = at + 1;
        let value: Vec<u8> = if split < argument.len() {
            let bytes: &[u8] = vstd::slice::slice_subrange(
                argument.as_slice(),
                split + 1,
                argument.len(),
            );
            proof {
                assert(bytes@ =~= inline_value(argument@)->0);
            }
            copy_bytes(bytes)
        } else {
            next = at + 1;
            if next < arguments.len() {
                next = next + 1;
                assert(views[at + 1] == arguments@[at + 1]@);
                copy_bytes(arguments[at + 1].as_slice())
            } else {
                Vec::new()
            }
        };
        if value.len() == 0 {
            return Err(LaunchError::MissingValue(name));
        }
        match name {
            OptionName::WorkingDirectory | OptionName::Dir => {
                options.working_directory = Some(value);
            },
            _ => {
                match str_from_utf8(value.as_slice()) {
                    None => {
                        return Err(LaunchError::NotUtf8(name));
                    },
                    Some(text) => {
                        if contains_control(text) {
                            return Err(LaunchError::HasControls(name));
                        }
                        if name == OptionName::AppId {
                            options.app_id = Some(text.to_owned());
                        } else {
                            options.title = Some(text.to_owned());
                        }
                    },
                }
            },
        }
        at = next;
    }
    Ok(LaunchAction::Run(options))
}

} // verus!
