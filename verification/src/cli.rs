//! The provider commands: their arguments, their decisions, and what they print.

use vstd::prelude::*;

use crate::json::{json_document, json_pretty, pretty_text, read_json};
use crate::names::NameTable;
use crate::profiles::{
    BuiltinProviderProfile, ModelEntry, ProfileContent, ProviderCredential,
};
use crate::settings::{
    parse_settings_profile, settings_document, settings_verdict, ProviderSettingsValidationReason,
    SettingsContent, SettingsReading,
};
use crate::text::{
    begins_with, joined, joined_lists_have_commas_between, optional_text, same_text,
    starts_with_char, texts,
};

verus! {

/// A provider subcommand.
#[derive(Clone, Copy, Debug, PartialEq, Eq, Structural)]
pub enum Subcommand {
    Add,
    Login,
    Remove,
    Rename,
    List,
    Show,
    Help,
}

/// The subcommand with a name; `None` when there is none.
pub open spec fn subcommand_named(name: Seq<char>) -> Option<Subcommand> {
    if name == "add"@ {
        Some(Subcommand::Add)
    } else if name == "login"@ {
        Some(Subcommand::Login)
    } else if name == "remove"@ || name == "delete"@ {
        Some(Subcommand::Remove)
    } else if name == "rename"@ {
        Some(Subcommand::Rename)
    } else if name == "list"@ || name == "status"@ {
        Some(Subcommand::List)
    } else if name == "show"@ {
        Some(Subcommand::Show)
    } else if name == "help"@ || name == "--help"@ || name == "-h"@ {
        Some(Subcommand::Help)
    } else {
        None
    }
}

/// The subcommand of an argument list, help where it is empty; else the message shown.
pub open spec fn chosen_subcommand(args: Seq<String>) -> Result<Subcommand, Seq<char>> {
    if args.len() == 0 {
        Ok(Subcommand::Help)
    } else {
        match subcommand_named(args[0]@) {
            Some(subcommand) => Ok(subcommand),
            None => Err("unknown provider subcommand: "@ + args[0]@),
        }
    }
}

/// The outcome of a command, with its message as a text.
pub open spec fn outcome<T>(res: Result<T, String>) -> Result<T, Seq<char>> {
    match res {
        Ok(value) => Ok(value),
        Err(message) => Err(message@),
    }
}

fn find_subcommand(name: &str) -> (res: Option<Subcommand>)
    ensures
        res == subcommand_named(name@),
{
    if same_text(name, "add") {
        Some(Subcommand::Add)
    } else if same_text(name, "login") {
        Some(Subcommand::Login)
    } else if same_text(name, "remove") || same_text(name, "delete") {
        Some(Subcommand::Remove)
    } else if same_text(name, "rename") {
        Some(Subcommand::Rename)
    } else if same_text(name, "list") || same_text(name, "status") {
        Some(Subcommand::List)
    } else if same_text(name, "show") {
        Some(Subcommand::Show)
    } else if same_text(name, "help") || same_text(name, "--help") || same_text(name, "-h") {
        Some(Subcommand::Help)
    } else {
        None
    }
}

/// Chooses the subcommand of an argument list.
pub fn choose_subcommand(args: &Vec<String>) -> (res: Result<Subcommand, String>)
    ensures
        outcome(res) == chosen_subcommand(args@),
{
    if args.len() == 0 {
        return Ok(Subcommand::Help);
    }
    match find_subcommand(args[0].as_str()) {
        Some(subcommand) => Ok(subcommand),
        None => {
            let mut message = "unknown provider subcommand: ".to_owned();
            message.append(args[0].as_str());
            Err(message)
        },
    }
}

/// A bare login is refused before anything is loaded unless it has exactly one name.
pub open spec fn login_misused(args: Seq<String>) -> bool {
    args.len() > 0 && args[0]@ == "login"@ && args.len() != 2
}

/// Refuses a bare login without exactly one name.
pub fn check_login_arity(args: &Vec<String>) -> (res: Result<(), String>)
    ensures
        outcome(res) == if login_misused(args@) {
            Err("tau provider login requires exactly one NAME"@)
        } else {
            Ok(())
        },
{
    if args.len() > 0 && same_text(args[0].as_str(), "login") && args.len() != 2 {
        Err("tau provider login requires exactly one NAME".to_owned())
    } else {
        Ok(())
    }
}

/// The single name of a command; else the message shown.
pub fn single_name(args: &Vec<String>, subcommand: Subcommand) -> (res: Result<String, String>)
    requires
        subcommand == Subcommand::Login || subcommand == Subcommand::Show,
    ensures
        match res {
            Ok(name) => args@.len() == 1 && name@ == args@[0]@,
            Err(message) => args@.len() != 1 && message@ == if subcommand == Subcommand::Login {
                "tau provider login requires exactly one NAME"@
            } else {
                "tau provider show requires exactly one NAME"@
            },
        },
{
    if args.len() == 1 {
        Ok(args[0].clone())
    } else {
        match subcommand {
            Subcommand::Login => Err("tau provider login requires exactly one NAME".to_owned()),
            _ => Err("tau provider show requires exactly one NAME".to_owned()),
        }
    }
}

/// The two names of a renaming; else the message shown.
pub fn rename_names(args: &Vec<String>) -> (res: Result<(String, String), String>)
    ensures
        match res {
            Ok(names) => args@.len() == 2 && names.0@ == args@[0]@ && names.1@ == args@[1]@,
            Err(message) => args@.len() != 2 && message@
                == "tau provider rename requires OLD and NEW"@,
        },
{
    if args.len() == 2 {
        Ok((args[0].clone(), args[1].clone()))
    } else {
        Err("tau provider rename requires OLD and NEW".to_owned())
    }
}

/// One configured extension, as far as the provider commands read it.
pub struct ExtensionEntry {
    pub name: String,
    pub enable: Option<bool>,
    pub role: Option<String>,
    pub has_command: bool,
    pub has_suffix: bool,
    /// The suffix names the built-in provider component.
    pub suffix_is_provider: bool,
}

/// The entry runs the built-in provider component with the role `provider`.
pub open spec fn is_builtin_provider(entry: ExtensionEntry) -> bool {
    let default = entry.name@ == "provider-builtin"@;
    &&& entry.enable != Some(false)
    &&& entry.role is Some ==> entry.role->0@ == "provider"@
    &&& !entry.has_command
    &&& if default && !entry.has_suffix {
        true
    } else {
        entry.has_suffix && entry.suffix_is_provider && (default || entry.role is Some)
    }
}

/// Reports whether an entry runs the built-in provider component with the role `provider`.
pub fn provider_cli_entry_is_builtin(entry: &ExtensionEntry) -> (res: bool)
    ensures
        res == is_builtin_provider(*entry),
{
    let disabled: bool = match entry.enable {
        Some(enabled) => !enabled,
        None => false,
    };
    if disabled {
        return false;
    }
    let provider_role: bool = match &entry.role {
        Some(role) => {
            if !same_text(role.as_str(), "provider") {
                return false;
            }
            true
        },
        None => false,
    };
    let component: bool = !entry.has_command && entry.has_suffix && entry.suffix_is_provider;
    let default: bool = same_text(entry.name.as_str(), "provider-builtin");
    if default && !entry.has_suffix {
        return !entry.has_command;
    }
    component && (default || provider_role)
}

/// An entry with this name exists.
pub open spec fn configured(entries: Seq<ExtensionEntry>, name: Seq<char>) -> bool {
    exists|i: int| 0 <= i < entries.len() && (#[trigger] entries[i]).name@ == name
}

/// An entry with this name runs the built-in provider.
pub open spec fn runs_provider(entries: Seq<ExtensionEntry>, name: Seq<char>) -> bool {
    exists|i: int|
        0 <= i < entries.len() && (#[trigger] entries[i]).name@ == name && is_builtin_provider(
            entries[i],
        )
}

/// The instances that the commands may address. The default instance needs no entry of its own.
pub open spec fn addressable(entries: Seq<ExtensionEntry>, name: Seq<char>) -> bool {
    runs_provider(entries, name) || (name == "provider-builtin"@ && !configured(entries, name))
}

fn find_entry(entries: &Vec<ExtensionEntry>, name: &str) -> (res: (bool, bool))
    ensures
        res.0 == configured(entries@, name@),
        res.1 == runs_provider(entries@, name@),
{
    let mut known: bool = false;
    let mut runs: bool = false;
    let mut i: usize = 0;
    while i < entries.len()
        invariant
            i <= entries@.len(),
            known == exists|j: int| 0 <= j < i && (#[trigger] entries@[j]).name@ == name@,
            runs == exists|j: int|
                0 <= j < i && (#[trigger] entries@[j]).name@ == name@ && is_builtin_provider(
                    entries@[j],
                ),
        decreases entries@.len() - i,
    {
        if same_text(entries[i].name.as_str(), name) {
            assert(entries@[i as int].name@ == name@);
            known = true;
            if provider_cli_entry_is_builtin(&entries[i]) {
                runs = true;
            }
        }
        i = i + 1;
    }
    (known, runs)
}

fn is_addressable(entries: &Vec<ExtensionEntry>, name: &str) -> (res: bool)
    ensures
        res == addressable(entries@, name@),
{
    let (known, runs) = find_entry(entries, name);
    runs || (same_text(name, "provider-builtin") && !known)
}

/// The instance that the arguments ask for; `None` for the default.
pub open spec fn requested_extension(args: Seq<String>) -> Option<Seq<char>> {
    if args.len() > 1 && args[0]@ == "--extension"@ {
        Some(args[1]@)
    } else {
        None
    }
}

/// The instance with this name; else the message shown. `invalid` holds what is wrong with each
/// name that is no extension name.
pub open spec fn named_extension(name: Seq<char>, invalid: Map<Seq<char>, String>) -> Result<
    Seq<char>,
    Seq<char>,
> {
    if invalid.contains_key(name) {
        Err("invalid provider extension instance: "@ + invalid[name]@)
    } else {
        Ok(name)
    }
}

/// The instance that a command addresses; else the message shown.
pub open spec fn addressed_extension(
    args: Seq<String>,
    entries: Seq<ExtensionEntry>,
    invalid: Map<Seq<char>, String>,
) -> Result<Seq<char>, Seq<char>> {
    if args.len() == 1 && args[0]@ == "--extension"@ {
        Err("--extension requires an exact configured instance name"@)
    } else {
        match requested_extension(args) {
            Some(extension) => if addressable(entries, extension) {
                named_extension(extension, invalid)
            } else {
                Err(
                    "extension instance '"@ + extension
                        + "' is missing, disabled, or is not the built-in provider component with role 'provider'"@,
                )
            },
            None => if addressable(entries, "provider-builtin"@) {
                named_extension("provider-builtin"@, invalid)
            } else {
                Err("the default provider-builtin extension is disabled"@)
            },
        }
    }
}

/// The arguments that remain after the instance selection.
pub open spec fn remaining_args(args: Seq<String>) -> Seq<String> {
    if requested_extension(args) is Some {
        args.skip(2)
    } else {
        args
    }
}

/// Copies the arguments from `from` on.
pub fn args_from(args: &Vec<String>, from: usize) -> (res: Vec<String>)
    requires
        from <= args@.len(),
    ensures
        texts(res@) == texts(args@.skip(from as int)),
{
    let mut res: Vec<String> = Vec::new();
    let mut i: usize = from;
    while i < args.len()
        invariant
            from <= i <= args@.len(),
            texts(res@) == texts(args@.subrange(from as int, i as int)),
        decreases args@.len() - i,
    {
        let ghost seen = res@;
        res.push(args[i].clone());
        proof {
            assert(texts(res@) =~= texts(seen).push(args@[i as int]@));
            assert(texts(args@.subrange(from as int, i + 1)) =~= texts(
                args@.subrange(from as int, i as int),
            ).push(args@[i as int]@));
        }
        i = i + 1;
    }
    assert(args@.subrange(from as int, args@.len() as int) =~= args@.skip(from as int));
    res
}

fn name_extension(name: String, invalid: &NameTable<String>) -> (res: Result<String, String>)
    ensures
        match res {
            Ok(extension) => named_extension(name@, invalid@) == Ok::<Seq<char>, Seq<char>>(
                extension@,
            ),
            Err(message) => named_extension(name@, invalid@) == Err::<Seq<char>, Seq<char>>(
                message@,
            ),
        },
{
    match invalid.get(name.as_str()) {
        Some(error) => {
            let mut message = "invalid provider extension instance: ".to_owned();
            message.append(error.as_str());
            Err(message)
        },
        None => Ok(name),
    }
}

/// Selects the extension instance of a command and the arguments that remain. `invalid` holds the
/// host's verdict on each name that is no extension name.
pub fn provider_cli_target(
    args: &Vec<String>,
    entries: &Vec<ExtensionEntry>,
    invalid: &NameTable<String>,
) -> (res: Result<(String, Vec<String>), String>)
    ensures
        match res {
            Ok((extension, remaining)) => {
                &&& addressed_extension(args@, entries@, invalid@) == Ok::<Seq<char>, Seq<char>>(
                    extension@,
                )
                &&& texts(remaining@) == texts(remaining_args(args@))
            },
            Err(message) => addressed_extension(args@, entries@, invalid@) == Err::<
                Seq<char>,
                Seq<char>,
            >(message@),
        },
{
    let selects: bool = args.len() > 0 && same_text(args[0].as_str(), "--extension");
    if selects {
        if args.len() < 2 {
            return Err("--extension requires an exact configured instance name".to_owned());
        }
        let extension = args[1].clone();
        if is_addressable(entries, extension.as_str()) {
            return match name_extension(extension, invalid) {
                Ok(extension) => Ok((extension, args_from(args, 2))),
                Err(message) => Err(message),
            };
        }
        let mut message = "extension instance '".to_owned();
        message.append(extension.as_str());
        message.append(
            "' is missing, disabled, or is not the built-in provider component with role 'provider'",
        );
        return Err(message);
    }
    assert(args@.skip(0) =~= args@);
    if is_addressable(entries, "provider-builtin") {
        match name_extension("provider-builtin".to_owned(), invalid) {
            Ok(extension) => Ok((extension, args_from(args, 0))),
            Err(message) => Err(message),
        }
    } else {
        Err("the default provider-builtin extension is disabled".to_owned())
    }
}

/// The help text of the provider commands.
pub fn provider_cli_help() -> (res: &'static str)
    ensures
        res@ == "Usage: tau provider [--extension INSTANCE] <subcommand>\n\nSubcommands:\n  add [--state|--config [--output -]] [KIND]\n                                 Add or replace a provider profile (default: state)\n  login <name>                   Authenticate an existing provider profile\n  remove [--state|--config] <name>\n                                  Remove a provider profile\n  rename <old> <new>             Rename a provider profile without changing credentials\n  list [--state|--config|--all]  List provider profiles with their source\n  show <name>                    Show a credential-free profile and source path\n\nProvider kinds:\n  chatgpt           ChatGPT / Codex\n  chat-completions  OpenAI-compatible Chat Completions\n  responses         OpenAI Responses API\n  openrouter        OpenRouter"@,
{
    "Usage: tau provider [--extension INSTANCE] <subcommand>\n\nSubcommands:\n  add [--state|--config [--output -]] [KIND]\n                                 Add or replace a provider profile (default: state)\n  login <name>                   Authenticate an existing provider profile\n  remove [--state|--config] <name>\n                                  Remove a provider profile\n  rename <old> <new>             Rename a provider profile without changing credentials\n  list [--state|--config|--all]  List provider profiles with their source\n  show <name>                    Show a credential-free profile and source path\n\nProvider kinds:\n  chatgpt           ChatGPT / Codex\n  chat-completions  OpenAI-compatible Chat Completions\n  responses         OpenAI Responses API\n  openrouter        OpenRouter"
}

/// A provider kind that setup accepts.
#[derive(Clone, Copy, Debug, PartialEq, Eq, Structural)]
pub enum ProviderKind {
    Chatgpt,
    ChatCompletions,
    Responses,
    OpenRouter,
}

impl ProviderKind {
    /// The only non-interactive spelling of a kind.
    pub open spec fn name(self) -> Seq<char> {
        match self {
            ProviderKind::Chatgpt => "chatgpt"@,
            ProviderKind::ChatCompletions => "chat-completions"@,
            ProviderKind::Responses => "responses"@,
            ProviderKind::OpenRouter => "openrouter"@,
        }
    }

    /// The only non-interactive spelling of a kind.
    pub fn token(&self) -> (res: &'static str)
        ensures
            res@ == self.name(),
    {
        match self {
            ProviderKind::Chatgpt => "chatgpt",
            ProviderKind::ChatCompletions => "chat-completions",
            ProviderKind::Responses => "responses",
            ProviderKind::OpenRouter => "openrouter",
        }
    }

    /// The label offered in the picker.
    pub fn label(&self) -> (res: &'static str)
        ensures
            res@ == match *self {
                ProviderKind::Chatgpt => "ChatGPT / Codex"@,
                ProviderKind::ChatCompletions => "OpenAI-compatible Chat Completions"@,
                ProviderKind::Responses => "OpenAI Responses API"@,
                ProviderKind::OpenRouter => "OpenRouter"@,
            },
    {
        match self {
            ProviderKind::Chatgpt => "ChatGPT / Codex",
            ProviderKind::ChatCompletions => "OpenAI-compatible Chat Completions",
            ProviderKind::Responses => "OpenAI Responses API",
            ProviderKind::OpenRouter => "OpenRouter",
        }
    }
}

/// The kinds in the order in which they are offered.
pub fn provider_kinds() -> (res: Vec<ProviderKind>)
    ensures
        res@ == seq![
            ProviderKind::Chatgpt,
            ProviderKind::ChatCompletions,
            ProviderKind::Responses,
            ProviderKind::OpenRouter,
        ],
{
    let kinds = vec![
        ProviderKind::Chatgpt,
        ProviderKind::ChatCompletions,
        ProviderKind::Responses,
        ProviderKind::OpenRouter,
    ];
    assert(kinds@ =~= seq![
        ProviderKind::Chatgpt,
        ProviderKind::ChatCompletions,
        ProviderKind::Responses,
        ProviderKind::OpenRouter,
    ]);
    kinds
}

/// The kind with a name; `None` when there is none.
pub open spec fn kind_named(name: Seq<char>) -> Option<ProviderKind> {
    if name == "chatgpt"@ {
        Some(ProviderKind::Chatgpt)
    } else if name == "chat-completions"@ {
        Some(ProviderKind::ChatCompletions)
    } else if name == "responses"@ {
        Some(ProviderKind::Responses)
    } else if name == "openrouter"@ {
        Some(ProviderKind::OpenRouter)
    } else {
        None
    }
}

/// Finds the kind with a name.
pub fn find_kind(name: &str) -> (res: Option<ProviderKind>)
    ensures
        res == kind_named(name@),
{
    if same_text(name, "chatgpt") {
        Some(ProviderKind::Chatgpt)
    } else if same_text(name, "chat-completions") {
        Some(ProviderKind::ChatCompletions)
    } else if same_text(name, "responses") {
        Some(ProviderKind::Responses)
    } else if same_text(name, "openrouter") {
        Some(ProviderKind::OpenRouter)
    } else {
        None
    }
}

/// Every kind is found by its own spelling.
pub proof fn kind_spelling_round_trips(kind: ProviderKind)
    ensures
        kind_named(kind.name()) == Some(kind),
{
    reveal_strlit("chatgpt");
    reveal_strlit("chat-completions");
    reveal_strlit("responses");
    reveal_strlit("openrouter");
    assert("chatgpt"@.len() == 7);
    assert("chat-completions"@.len() == 16);
    assert("responses"@.len() == 9);
    assert("openrouter"@.len() == 10);
}

/// Where settings are kept.
#[derive(Clone, Copy, Debug, PartialEq, Eq, Structural)]
pub enum ProfileSource {
    Config,
    State,
}

impl ProfileSource {
    /// The word for a source.
    pub open spec fn word(self) -> Seq<char> {
        match self {
            ProfileSource::Config => "config"@,
            ProfileSource::State => "state"@,
        }
    }

    /// The word for a source.
    pub fn label(&self) -> (res: &'static str)
        ensures
            res@ == self.word(),
    {
        match self {
            ProfileSource::Config => "config",
            ProfileSource::State => "state",
        }
    }
}

/// Where a new profile goes.
#[derive(Clone, Copy, Debug, PartialEq, Eq, Structural)]
pub enum ProfileTarget {
    State,
    Config,
    Stdout,
}

/// What the options of an addition have set so far.
pub struct AddScan {
    pub source: Option<ProfileSource>,
    pub stdout: bool,
    /// The arguments that are no options.
    pub kinds: Seq<Seq<char>>,
}

/// The options of an addition, read from argument `i` on; else the message shown. The first
/// argument at fault decides.
pub open spec fn add_scanned(args: Seq<String>, i: int, scan: AddScan) -> Result<
    AddScan,
    Seq<char>,
>
    decreases args.len() - i,
{
    if i < 0 || i >= args.len() {
        Ok(scan)
    } else {
        let arg = args[i]@;
        if arg == "--state"@ || arg == "--config"@ {
            if scan.source is Some {
                Err("provider add accepts exactly one source flag"@)
            } else {
                let source = if arg == "--state"@ {
                    ProfileSource::State
                } else {
                    ProfileSource::Config
                };
                add_scanned(args, i + 1, AddScan { source: Some(source), ..scan })
            }
        } else if arg == "--output"@ && i + 1 < args.len() && args[i + 1]@ == "-"@ {
            if scan.stdout {
                Err("provider add accepts --output - only once"@)
            } else {
                add_scanned(args, i + 2, AddScan { stdout: true, ..scan })
            }
        } else if begins_with(arg, '-') {
            Err("unknown provider add option '"@ + arg + "'"@)
        } else {
            add_scanned(args, i + 1, AddScan { kinds: scan.kinds.push(arg), ..scan })
        }
    }
}

/// What an addition asks for.
#[derive(Clone, Copy, Debug, PartialEq, Eq, Structural)]
pub struct AddRequest {
    pub target: ProfileTarget,
    /// No option chose the target.
    pub implicit_state_target: bool,
    /// The kind; `None` when it is to be picked.
    pub kind: Option<ProviderKind>,
}

/// The addition that scanned options ask for; else the message shown.
pub open spec fn add_request(scan: AddScan) -> Result<AddRequest, Seq<char>> {
    if scan.stdout && scan.source != Some(ProfileSource::Config) {
        Err("--output - requires --config"@)
    } else {
        let target = if scan.stdout {
            ProfileTarget::Stdout
        } else if scan.source == Some(ProfileSource::Config) {
            ProfileTarget::Config
        } else {
            ProfileTarget::State
        };
        let implicit_state_target = scan.source is None && !scan.stdout;
        if scan.kinds.len() == 0 {
            Ok(AddRequest { target, implicit_state_target, kind: None })
        } else if scan.kinds.len() == 1 {
            match kind_named(scan.kinds[0]) {
                Some(kind) => Ok(AddRequest { target, implicit_state_target, kind: Some(kind) }),
                None => Err(
                    "unknown provider kind '"@ + scan.kinds[0]
                        + "'; valid kinds: chatgpt, chat-completions, responses, openrouter"@,
                ),
            }
        } else {
            Err("tau provider add accepts at most one KIND"@)
        }
    }
}

/// No option of an addition has been read.
pub open spec fn nothing_scanned() -> AddScan {
    AddScan { source: None, stdout: false, kinds: Seq::empty() }
}

/// The addition that some arguments ask for; else the message shown.
pub open spec fn parsed_addition(args: Seq<String>) -> Result<AddRequest, Seq<char>> {
    match add_scanned(args, 0, nothing_scanned()) {
        Ok(scan) => add_request(scan),
        Err(message) => Err(message),
    }
}

/// Reads the arguments of an addition.
pub fn parse_add_args(args: &Vec<String>) -> (res: Result<AddRequest, String>)
    ensures
        outcome(res) == parsed_addition(args@),
{
    let mut source: Option<ProfileSource> = None;
    let mut stdout: bool = false;
    let mut kinds: Vec<String> = Vec::new();
    let mut index: usize = 0;
    let n: usize = args.len();
    assert(texts(kinds@) =~= Seq::<Seq<char>>::empty());
    while index < n
        invariant
            n == args@.len(),
            index <= n,
            add_scanned(args@, 0, nothing_scanned()) == add_scanned(
                args@,
                index as int,
                AddScan { source, stdout, kinds: texts(kinds@) },
            ),
        decreases n - index,
    {
        let argument = args[index].as_str();
        let state: bool = same_text(argument, "--state");
        let config: bool = same_text(argument, "--config");
        if state || config {
            if source.is_some() {
                return Err("provider add accepts exactly one source flag".to_owned());
            }
            source =
            Some(
                if state {
                    ProfileSource::State
                } else {
                    ProfileSource::Config
                },
            );
            index = index + 1;
        } else if same_text(argument, "--output") && n - index > 1 && same_text(
            args[index + 1].as_str(),
            "-",
        ) {
            if stdout {
                return Err("provider add accepts --output - only once".to_owned());
            }
            stdout = true;
            index = index + 2;
        } else if starts_with_char(argument, '-') {
            let mut message = "unknown provider add option '".to_owned();
            message.append(argument);
            message.append("'");
            return Err(message);
        } else {
            let ghost seen = kinds@;
            kinds.push(args[index].clone());
            assert(texts(kinds@) =~= texts(seen).push(args@[index as int]@));
            index = index + 1;
        }
    }
    let config: bool = match source {
        Some(ProfileSource::Config) => true,
        _ => false,
    };
    if stdout && !config {
        return Err("--output - requires --config".to_owned());
    }
    let target = if stdout {
        ProfileTarget::Stdout
    } else if config {
        ProfileTarget::Config
    } else {
        ProfileTarget::State
    };
    let implicit_state_target: bool = source.is_none() && !stdout;
    if kinds.len() == 0 {
        return Ok(AddRequest { target, implicit_state_target, kind: None });
    }
    if kinds.len() > 1 {
        return Err("tau provider add accepts at most one KIND".to_owned());
    }
    match find_kind(kinds[0].as_str()) {
        Some(kind) => Ok(AddRequest { target, implicit_state_target, kind: Some(kind) }),
        None => {
            let mut message = "unknown provider kind '".to_owned();
            message.append(kinds[0].as_str());
            message.append("'; valid kinds: chatgpt, chat-completions, responses, openrouter");
            Err(message)
        },
    }
}

/// What the options of a removal have set so far.
pub struct RemoveScan {
    pub source: Option<ProfileSource>,
    pub name: Option<Seq<char>>,
}

/// The options of a removal, read from argument `i` on; else the message shown.
pub open spec fn remove_scanned(args: Seq<String>, i: int, scan: RemoveScan) -> Result<
    RemoveScan,
    Seq<char>,
>
    decreases args.len() - i,
{
    if i < 0 || i >= args.len() {
        Ok(scan)
    } else {
        let arg = args[i]@;
        if arg == "--state"@ || arg == "--config"@ {
            if scan.source is Some {
                Err("provider remove accepts exactly one source flag"@)
            } else {
                let source = if arg == "--state"@ {
                    ProfileSource::State
                } else {
                    ProfileSource::Config
                };
                remove_scanned(args, i + 1, RemoveScan { source: Some(source), ..scan })
            }
        } else if begins_with(arg, '-') {
            Err("unknown provider remove option '"@ + arg + "'"@)
        } else if scan.name is None {
            remove_scanned(args, i + 1, RemoveScan { name: Some(arg), ..scan })
        } else {
            Err("tau provider remove accepts one NAME"@)
        }
    }
}

/// What a removal asks for.
pub struct RemoveRequest {
    /// The only source to remove from.
    pub source: Option<ProfileSource>,
    /// The name; `None` when it is to be asked for.
    pub name: Option<String>,
}

/// The removal that a parse reports.
pub open spec fn removal(res: Result<RemoveRequest, String>) -> Result<RemoveScan, Seq<char>> {
    match res {
        Ok(request) => Ok(
            RemoveScan { source: request.source, name: optional_text(request.name) },
        ),
        Err(message) => Err(message@),
    }
}

/// Reads the arguments of a removal.
pub fn parse_remove_args(args: &Vec<String>) -> (res: Result<RemoveRequest, String>)
    ensures
        removal(res) == remove_scanned(args@, 0, (RemoveScan { source: None, name: None })),
{
    let mut source: Option<ProfileSource> = None;
    let mut name: Option<String> = None;
    let mut index: usize = 0;
    while index < args.len()
        invariant
            index <= args@.len(),
            remove_scanned(args@, 0, (RemoveScan { source: None, name: None })) == remove_scanned(
                args@,
                index as int,
                RemoveScan { source, name: optional_text(name) },
            ),
        decreases args@.len() - index,
    {
        let argument = args[index].as_str();
        let state: bool = same_text(argument, "--state");
        let config: bool = same_text(argument, "--config");
        if state || config {
            if source.is_some() {
                return Err("provider remove accepts exactly one source flag".to_owned());
            }
            source =
            Some(
                if state {
                    ProfileSource::State
                } else {
                    ProfileSource::Config
                },
            );
        } else if starts_with_char(argument, '-') {
            let mut message = "unknown provider remove option '".to_owned();
            message.append(argument);
            message.append("'");
            return Err(message);
        } else if name.is_none() {
            name = Some(args[index].clone());
        } else {
            return Err("tau provider remove accepts one NAME".to_owned());
        }
        index = index + 1;
    }
    Ok(RemoveRequest { source, name })
}

/// The command that authenticates a provider.
pub open spec fn login_command(extension: Seq<char>, name: Seq<char>) -> Seq<char> {
    if extension == "provider-builtin"@ {
        "tau provider login "@ + name
    } else {
        "tau provider --extension "@ + extension + " login "@ + name
    }
}

/// Writes the command that authenticates a provider.
pub fn provider_login_command(extension: &str, name: &str) -> (res: String)
    ensures
        res@ == login_command(extension@, name@),
{
    if same_text(extension, "provider-builtin") {
        let mut text = "tau provider login ".to_owned();
        text.append(name);
        text
    } else {
        let mut text = "tau provider --extension ".to_owned();
        text.append(extension);
        text.append(" login ");
        text.append(name);
        text
    }
}

/// What the credential store holds of a ChatGPT profile.
#[derive(Clone, Copy, Debug, PartialEq, Eq, Structural)]
pub enum OAuthRecord {
    /// A record that has not expired.
    Unexpired,
    /// A record that has expired.
    Expired,
    /// No readable record.
    Missing,
}

/// One stored profile, with what the host read of its settings and credential.
pub struct StoredProfile {
    pub provider: String,
    pub source: ProfileSource,
    /// The path of the settings file, as it is shown.
    pub path: String,
    pub contents: Vec<u8>,
    pub reading: SettingsReading,
    /// The OAuth record that the profile refers to.
    pub oauth: OAuthRecord,
    /// The API-key record that the profile refers to holds a value.
    pub has_api_key: bool,
    /// The configured name that the credential is materialized from.
    pub named_source: Option<String>,
}

/// Why a command over stored profiles fails.
pub enum ProfileFailure {
    /// A message of its own.
    Message(String),
    /// The settings of a profile are invalid.
    Invalid {
        provider: String,
        reason: ProviderSettingsValidationReason,
        source: ProfileSource,
        path: String,
    },
}

/// The content of a failure.
pub enum FailureContent {
    Message(Seq<char>),
    Invalid {
        provider: Seq<char>,
        reason: ProviderSettingsValidationReason,
        source: ProfileSource,
        path: Seq<char>,
    },
}

impl ProfileFailure {
    /// The content of this failure.
    pub open spec fn content(self) -> FailureContent {
        match self {
            ProfileFailure::Message(message) => FailureContent::Message(message@),
            ProfileFailure::Invalid { provider, reason, source, path } => FailureContent::Invalid {
                provider: provider@,
                reason,
                source,
                path: path@,
            },
        }
    }

    /// Writes the message shown, with the words for the reason.
    pub fn text(&self, reason_text: &str) -> (res: String)
        ensures
            res@ == match self.content() {
                FailureContent::Message(message) => message,
                FailureContent::Invalid { provider, reason, source, path } => "provider profile '"@
                    + provider + "' is invalid: "@ + reason_text@ + " (source="@ + source.word()
                    + ", path="@ + path + ")"@,
            },
    {
        match self {
            ProfileFailure::Message(message) => message.clone(),
            ProfileFailure::Invalid { provider, source, path, .. } => {
                let mut text = "provider profile '".to_owned();
                text.append(provider.as_str());
                text.append("' is invalid: ");
                text.append(reason_text);
                text.append(" (source=");
                text.append(source.label());
                text.append(", path=");
                text.append(path.as_str());
                text.append(")");
                text
            },
        }
    }
}

/// The verdict on the settings of a stored profile.
pub open spec fn stored_verdict(profile: StoredProfile) -> Result<SettingsContent, FailureContent> {
    match settings_verdict(settings_document(profile.contents@), profile.reading) {
        Ok(settings) => Ok(settings),
        Err(reason) => Err(
            FailureContent::Invalid {
                provider: profile.provider@,
                reason,
                source: profile.source,
                path: profile.path@,
            },
        ),
    }
}

/// The names of some models joined by a comma.
pub open spec fn model_ids(models: Seq<ModelEntry>) -> Seq<char> {
    joined(Seq::new(models.len(), |i: int| models[i].id@))
}

/// Joins the names of some models by a comma.
pub fn join_models(models: &Vec<ModelEntry>) -> (res: String)
    ensures
        res@ == model_ids(models@),
{
    proof {
        reveal_strlit("");
    }
    let mut text = "".to_owned();
    let ghost ids = Seq::new(models@.len(), |i: int| models@[i].id@);
    let mut i: usize = 0;
    assert(text@ =~= joined(ids.take(0)));
    while i < models.len()
        invariant
            i <= models@.len(),
            ids == Seq::new(models@.len(), |i: int| models@[i].id@),
            text@ == joined(ids.take(i as int)),
        decreases models@.len() - i,
    {
        let ghost before = text@;
        if i > 0 {
            text.append(",");
        }
        text.append(models[i].id.as_str());
        proof {
            let next = ids.take(i + 1);
            assert(next.drop_last() =~= ids.take(i as int));
            assert(next.last() == models@[i as int].id@);
            if i == 0 {
                assert(before =~= Seq::<char>::empty());
                assert(text@ =~= next[0]);
            }
        }
        i = i + 1;
    }
    assert(ids.take(i as int) =~= ids);
    text
}

/// The word for the state of a ChatGPT login.
pub open spec fn login_status(record: OAuthRecord) -> Seq<char> {
    match record {
        OAuthRecord::Unexpired => "logged-in"@,
        OAuthRecord::Expired => "expired"@,
        OAuthRecord::Missing => "not-configured"@,
    }
}

/// The word for the state of an API key.
pub open spec fn api_key_status(credential: ProviderCredential, has_api_key: bool) -> Seq<char> {
    if credential is Stored && has_api_key {
        "api-key"@
    } else {
        "no-api-key"@
    }
}

/// Tells the state of an API key.
pub fn setup_api_key_status(credential: &ProviderCredential, has_api_key: bool) -> (res:
    &'static str)
    ensures
        res@ == api_key_status(*credential, has_api_key),
{
    match credential {
        ProviderCredential::Stored(_) => if has_api_key {
            "api-key"
        } else {
            "no-api-key"
        },
        ProviderCredential::Keyless => "no-api-key",
    }
}

/// The line of an API-key profile.
pub open spec fn api_key_line(
    extension: Seq<char>,
    name: Seq<char>,
    kind: Seq<char>,
    base_url: Seq<char>,
    models: Seq<ModelEntry>,
    status: Seq<char>,
    source: Seq<char>,
) -> Seq<char> {
    extension + "\t"@ + name + "\t"@ + kind + "\t"@ + base_url + "\t"@ + model_ids(models) + "\t"@
        + status + "\t"@ + source + "\n"@
}

/// The line of a ChatGPT profile. One that cannot be used ends with the command that mends it.
pub open spec fn chatgpt_line(
    extension: Seq<char>,
    name: Seq<char>,
    record: OAuthRecord,
    lite_compatibility: bool,
    source: Seq<char>,
) -> Seq<char> {
    let mode = if lite_compatibility {
        "responses-lite-compatibility"@
    } else {
        "responses-standard"@
    };
    let line = extension + "\t"@ + name + "\tchatgpt\t"@ + login_status(record) + "\t"@ + mode
        + "\t"@ + source;
    if record == OAuthRecord::Unexpired {
        line + "\n"@
    } else {
        line + "\tlogin: "@ + login_command(extension, name) + "\n"@
    }
}

/// The line of one accepted profile.
pub open spec fn profile_line(
    extension: Seq<char>,
    profile: StoredProfile,
    settings: SettingsContent,
) -> Seq<char> {
    let name = profile.provider@;
    let source = profile.source.word();
    let status = api_key_status(settings.credential, profile.has_api_key);
    match settings.profile {
        ProfileContent::Chatgpt { lite_compatibility, .. } => chatgpt_line(
            extension,
            name,
            profile.oauth,
            lite_compatibility,
            source,
        ),
        ProfileContent::ChatCompletions(route) => api_key_line(
            extension,
            name,
            "chat_completions"@,
            route.base_url,
            route.models,
            status,
            source,
        ),
        ProfileContent::OpenRouter(route) => api_key_line(
            extension,
            name,
            "openrouter"@,
            "https://openrouter.ai/api/v1"@,
            route.models,
            status,
            source,
        ),
        ProfileContent::Responses(route) => api_key_line(
            extension,
            name,
            "responses"@,
            route.base_url,
            route.models,
            status,
            source,
        ),
    }
}

fn write_api_key_line(
    extension: &str,
    name: &str,
    kind: &str,
    base_url: &str,
    models: &Vec<ModelEntry>,
    status: &str,
    source: &str,
) -> (res: String)
    ensures
        res@ == api_key_line(extension@, name@, kind@, base_url@, models@, status@, source@),
{
    let mut line = extension.to_owned();
    line.append("\t");
    line.append(name);
    line.append("\t");
    line.append(kind);
    line.append("\t");
    line.append(base_url);
    line.append("\t");
    line.append(join_models(models).as_str());
    line.append("\t");
    line.append(status);
    line.append("\t");
    line.append(source);
    line.append("\n");
    line
}

fn write_chatgpt_line(
    extension: &str,
    name: &str,
    record: OAuthRecord,
    lite_compatibility: bool,
    source: &str,
) -> (res: String)
    ensures
        res@ == chatgpt_line(extension@, name@, record, lite_compatibility, source@),
{
    let mut line = extension.to_owned();
    line.append("\t");
    line.append(name);
    line.append("\tchatgpt\t");
    line.append(
        match record {
            OAuthRecord::Unexpired => "logged-in",
            OAuthRecord::Expired => "expired",
            OAuthRecord::Missing => "not-configured",
        },
    );
    line.append("\t");
    line.append(
        if lite_compatibility {
            "responses-lite-compatibility"
        } else {
            "responses-standard"
        },
    );
    line.append("\t");
    line.append(source);
    let usable: bool = match record {
        OAuthRecord::Unexpired => true,
        _ => false,
    };
    if !usable {
        line.append("\tlogin: ");
        line.append(provider_login_command(extension, name).as_str());
    }
    line.append("\n");
    line
}

/// A copy of a profile's identifying fields in the failure that its settings cause.
fn invalid_profile(
    provider: &String,
    reason: ProviderSettingsValidationReason,
    source: ProfileSource,
    path: &String,
) -> (res: ProfileFailure)
    ensures
        res.content() == (FailureContent::Invalid {
            provider: provider@,
            reason,
            source,
            path: path@,
        }),
{
    ProfileFailure::Invalid { provider: provider.clone(), reason, source, path: path.clone() }
}

/// The line that a listed profile gives, or its failure.
pub open spec fn listed_line(extension: Seq<char>, profile: StoredProfile) -> Result<
    Seq<char>,
    FailureContent,
> {
    match stored_verdict(profile) {
        Ok(settings) => Ok(profile_line(extension, profile, settings)),
        Err(failure) => Err(failure),
    }
}

fn write_profile_line(extension: &str, profile: StoredProfile) -> (res: Result<
    String,
    ProfileFailure,
>)
    ensures
        match res {
            Ok(line) => listed_line(extension@, profile) == Ok::<Seq<char>, FailureContent>(line@),
            Err(failure) => listed_line(extension@, profile) == Err::<Seq<char>, FailureContent>(
                failure.content(),
            ),
        },
{
    let StoredProfile {
        provider,
        source,
        path,
        contents,
        reading,
        oauth,
        has_api_key,
        named_source: _,
    } = profile;
    let (parsed, credential) = match parse_settings_profile(&contents, reading) {
        Ok(parsed) => parsed,
        Err(reason) => {
            return Err(invalid_profile(&provider, reason, source, &path));
        },
    };
    let status = setup_api_key_status(&credential, has_api_key);
    Ok(
        match parsed {
            BuiltinProviderProfile::Chatgpt(chatgpt) => write_chatgpt_line(
                extension,
                provider.as_str(),
                oauth,
                chatgpt.responses_lite_compatibility,
                source.label(),
            ),
            BuiltinProviderProfile::ChatCompletions(route) => write_api_key_line(
                extension,
                provider.as_str(),
                "chat_completions",
                route.base_url.as_str(),
                &route.models,
                status,
                source.label(),
            ),
            BuiltinProviderProfile::OpenRouter(route) => write_api_key_line(
                extension,
                provider.as_str(),
                "openrouter",
                "https://openrouter.ai/api/v1",
                &route.models,
                status,
                source.label(),
            ),
            BuiltinProviderProfile::Responses(route) => write_api_key_line(
                extension,
                provider.as_str(),
                "responses",
                route.base_url.as_str(),
                &route.models,
                status,
                source.label(),
            ),
        },
    )
}

/// The sources that a listing shows; `None` for all of them.
pub open spec fn list_filter(args: Seq<String>) -> Result<Option<ProfileSource>, Seq<char>> {
    if args.len() == 0 || (args.len() == 1 && args[0]@ == "--all"@) {
        Ok(None)
    } else if args.len() == 1 && args[0]@ == "--config"@ {
        Ok(Some(ProfileSource::Config))
    } else if args.len() == 1 && args[0]@ == "--state"@ {
        Ok(Some(ProfileSource::State))
    } else {
        Err("tau provider list accepts one of --all, --config, or --state"@)
    }
}

/// Reads the arguments of a listing.
pub fn parse_list_args(args: &Vec<String>) -> (res: Result<Option<ProfileSource>, String>)
    ensures
        outcome(res) == list_filter(args@),
{
    if args.len() == 0 {
        return Ok(None);
    }
    if args.len() == 1 {
        let flag = args[0].as_str();
        if same_text(flag, "--all") {
            return Ok(None);
        }
        if same_text(flag, "--config") {
            return Ok(Some(ProfileSource::Config));
        }
        if same_text(flag, "--state") {
            return Ok(Some(ProfileSource::State));
        }
    }
    Err("tau provider list accepts one of --all, --config, or --state".to_owned())
}

/// What a listing has printed, and why it stopped.
pub struct ListingContent {
    pub output: Seq<char>,
    pub displayed: nat,
    pub failure: Option<FailureContent>,
}

/// What a listing of some profiles prints. It stops at the first profile with invalid settings;
/// the lines before it stay printed.
pub open spec fn listed(
    extension: Seq<char>,
    filter: Option<ProfileSource>,
    profiles: Seq<StoredProfile>,
) -> ListingContent
    decreases profiles.len(),
{
    if profiles.len() == 0 {
        ListingContent { output: Seq::empty(), displayed: 0, failure: None }
    } else {
        let before = listed(extension, filter, profiles.drop_last());
        let last = profiles.last();
        if before.failure is Some || (filter is Some && filter->0 != last.source) {
            before
        } else {
            match listed_line(extension, last) {
                Ok(line) => ListingContent {
                    output: before.output + line,
                    displayed: before.displayed + 1,
                    failure: None,
                },
                Err(failure) => ListingContent { failure: Some(failure), ..before },
            }
        }
    }
}

/// What a listing prints in all; without a line it says so.
pub open spec fn listing_output(listing: ListingContent) -> Seq<char> {
    if listing.failure is None && listing.displayed == 0 {
        "No providers configured.\n"@
    } else {
        listing.output
    }
}

/// The failure of a command, if any.
pub open spec fn failure_content(failure: Option<ProfileFailure>) -> Option<FailureContent> {
    match failure {
        Some(failure) => Some(failure.content()),
        None => None,
    }
}

proof fn listing_stops(
    extension: Seq<char>,
    filter: Option<ProfileSource>,
    profiles: Seq<StoredProfile>,
    done: int,
)
    requires
        0 <= done <= profiles.len(),
        listed(extension, filter, profiles.take(done)).failure is Some,
    ensures
        listed(extension, filter, profiles) == listed(extension, filter, profiles.take(done)),
    decreases profiles.len() - done,
{
    if done < profiles.len() {
        assert(profiles.take(done + 1).drop_last() =~= profiles.take(done));
        listing_stops(extension, filter, profiles, done + 1);
    } else {
        assert(profiles.take(done) =~= profiles);
    }
}

/// Lists the stored profiles.
pub fn list_profiles(
    extension: &str,
    filter: Option<ProfileSource>,
    profiles: Vec<StoredProfile>,
) -> (res: (String, Option<ProfileFailure>))
    ensures
        res.0@ == listing_output(listed(extension@, filter, profiles@)),
        failure_content(res.1) == listed(extension@, filter, profiles@).failure,
{
    proof {
        reveal_strlit("");
    }
    let mut output = "".to_owned();
    let mut displayed: usize = 0;
    let total: usize = profiles.len();
    let mut failure: Option<ProfileFailure> = None;
    let ghost all = profiles@;
    let ghost mut done: int = 0;
    let mut rest = profiles;
    assert(all.take(0) =~= Seq::<StoredProfile>::empty());
    assert(output@ =~= Seq::<char>::empty());
    assert(all.skip(0) =~= all);
    while rest.len() > 0 && failure.is_none()
        invariant
            0 <= done <= all.len(),
            all.len() == total,
            failure is None ==> rest@ == all.skip(done),
            rest@.len() == all.len() - done,
            displayed <= done,
            listed(extension@, filter, all.take(done)) == (ListingContent {
                output: output@,
                displayed: displayed as nat,
                failure: failure_content(failure),
            }),
        decreases rest@.len(),
    {
        let profile = rest.remove(0);
        proof {
            assert(profile == all[done]);
            assert(all.take(done + 1).drop_last() =~= all.take(done));
            assert(all.take(done + 1).last() == all[done]);
            assert(rest@ =~= all.skip(done + 1));
        }
        let wanted: bool = match filter {
            None => true,
            Some(source) => source == profile.source,
        };
        if wanted {
            match write_profile_line(extension, profile) {
                Ok(line) => {
                    output.append(line.as_str());
                    displayed = displayed + 1;
                },
                Err(stop) => {
                    failure = Some(stop);
                },
            }
        }
        proof {
            done = done + 1;
        }
    }
    proof {
        if failure is Some {
            listing_stops(extension@, filter, all, done);
        } else {
            assert(all.take(done) =~= all);
        }
    }
    if failure.is_none() && displayed == 0 {
        ("No providers configured.\n".to_owned(), failure)
    } else {
        (output, failure)
    }
}

/// Why a profile is not shown.
pub enum ShowFailure {
    /// There is no such profile.
    Message(String),
    /// The settings are not one JSON document, or cannot be printed.
    InvalidJson,
}

/// Profile `i` is the first of a provider.
pub open spec fn first_of(profiles: Seq<StoredProfile>, name: Seq<char>, i: int) -> bool {
    &&& 0 <= i < profiles.len()
    &&& profiles[i].provider@ == name
    &&& forall|j: int| 0 <= j < i ==> (#[trigger] profiles[j]).provider@ != name
}

/// No profile is of this provider.
pub open spec fn none_of(profiles: Seq<StoredProfile>, name: Seq<char>) -> bool {
    forall|j: int| 0 <= j < profiles.len() ==> (#[trigger] profiles[j]).provider@ != name
}

fn find_profile(profiles: &Vec<StoredProfile>, name: &str) -> (res: Option<usize>)
    ensures
        match res {
            Some(i) => first_of(profiles@, name@, i as int),
            None => none_of(profiles@, name@),
        },
{
    let mut i: usize = 0;
    while i < profiles.len()
        invariant
            i <= profiles@.len(),
            forall|j: int| 0 <= j < i ==> (#[trigger] profiles@[j]).provider@ != name@,
        decreases profiles@.len() - i,
    {
        if same_text(profiles[i].provider.as_str(), name) {
            return Some(i);
        }
        i = i + 1;
    }
    None
}

/// The message about a provider that is not configured.
pub open spec fn not_configured(name: Seq<char>) -> Seq<char> {
    "provider profile '"@ + name + "' is not configured"@
}

fn write_not_configured(name: &str) -> (res: String)
    ensures
        res@ == not_configured(name@),
{
    let mut message = "provider profile '".to_owned();
    message.append(name);
    message.append("' is not configured");
    message
}

/// The indented form of some settings; `None` when they cannot be read or printed.
pub open spec fn pretty_settings(contents: Seq<u8>) -> Option<Seq<char>> {
    match json_document(contents) {
        Some(text) => json_pretty(text),
        None => None,
    }
}

/// Shows one stored profile with its source and path.
pub fn show_profile(profiles: &Vec<StoredProfile>, name: &str) -> (res: Result<String, ShowFailure>)
    ensures
        match res {
            Err(ShowFailure::Message(message)) => none_of(profiles@, name@) && message@
                == not_configured(name@),
            Err(ShowFailure::InvalidJson) => exists|i: int| #[trigger]
                first_of(profiles@, name@, i) && pretty_settings(profiles@[i].contents@) is None,
            Ok(text) => exists|i: int| #[trigger]
                first_of(profiles@, name@, i) && shown(profiles@[i], text@),
        },
{
    match find_profile(profiles, name) {
        None => Err(ShowFailure::Message(write_not_configured(name))),
        Some(i) => {
            let profile = &profiles[i];
            let value = match read_json(profile.contents.as_slice()) {
                Some(value) => value,
                None => {
                    assert(first_of(profiles@, name@, i as int));
                    return Err(ShowFailure::InvalidJson);
                },
            };
            let pretty = match pretty_text(&value) {
                Some(pretty) => pretty,
                None => {
                    assert(first_of(profiles@, name@, i as int));
                    return Err(ShowFailure::InvalidJson);
                },
            };
            let mut text = "source: ".to_owned();
            text.append(profile.source.label());
            text.append("\npath: ");
            text.append(profile.path.as_str());
            text.append("\n");
            text.append(pretty.as_str());
            text.append("\n");
            assert(first_of(profiles@, name@, i as int));
            assert(shown(profiles@[i as int], text@));
            Ok(text)
        },
    }
}

/// `text` shows a profile: its source, its path, and its indented settings.
pub open spec fn shown(profile: StoredProfile, text: Seq<char>) -> bool {
    &&& pretty_settings(profile.contents@) is Some
    &&& text == "source: "@ + profile.source.word() + "\npath: "@ + profile.path@ + "\n"@
        + pretty_settings(profile.contents@)->0 + "\n"@
}

/// The profiles of one provider.
pub open spec fn profiles_of(profiles: Seq<StoredProfile>, name: Seq<char>) -> Seq<StoredProfile>
    decreases profiles.len(),
{
    if profiles.len() == 0 {
        Seq::empty()
    } else {
        let rest = profiles_of(profiles.drop_last(), name);
        if profiles.last().provider@ == name {
            rest.push(profiles.last())
        } else {
            rest
        }
    }
}

fn keep_profiles(profiles: Vec<StoredProfile>, name: &str) -> (res: Vec<StoredProfile>)
    ensures
        res@ == profiles_of(profiles@, name@),
{
    let mut rest = profiles;
    let mut kept: Vec<StoredProfile> = Vec::new();
    let ghost all = profiles@;
    let ghost mut done: int = 0;
    assert(all.take(0) =~= Seq::<StoredProfile>::empty());
    assert(all.skip(0) =~= all);
    while rest.len() > 0
        invariant
            0 <= done <= all.len(),
            rest@ == all.skip(done),
            kept@ == profiles_of(all.take(done), name@),
        decreases rest@.len(),
    {
        let profile = rest.remove(0);
        proof {
            assert(profile == all[done]);
            assert(all.take(done + 1).drop_last() =~= all.take(done));
            assert(rest@ =~= all.skip(done + 1));
        }
        if same_text(profile.provider.as_str(), name) {
            kept.push(profile);
        }
        proof {
            done = done + 1;
        }
    }
    assert(all.take(done) =~= all);
    kept
}

/// The message about a provider with more than one profile.
pub open spec fn duplicated(name: Seq<char>) -> Seq<char> {
    "provider profile '"@ + name + "' is duplicated across config and state"@
}

fn write_duplicated(name: &str) -> (res: String)
    ensures
        res@ == duplicated(name@),
{
    let mut message = "provider profile '".to_owned();
    message.append(name);
    message.append("' is duplicated across config and state");
    message
}

/// What a login asks for and where it publishes the record. The settings are left as they are.
pub enum LoginAction {
    /// A browser login; the record goes to this path.
    OAuth { path: String },
    /// An API key, from a named secret where there is one; the record goes to this path.
    ApiKey { path: String, named_source: Option<String> },
}

/// The content of a login.
pub enum LoginContent {
    OAuth { path: Seq<char> },
    ApiKey { path: Seq<char>, named_source: Option<Seq<char>> },
}

impl LoginAction {
    /// The content of this login.
    pub open spec fn content(self) -> LoginContent {
        match self {
            LoginAction::OAuth { path } => LoginContent::OAuth { path: path@ },
            LoginAction::ApiKey { path, named_source } => LoginContent::ApiKey {
                path: path@,
                named_source: optional_text(named_source),
            },
        }
    }
}

/// The login of the only profile of a provider; else the failure.
pub open spec fn login_of(name: Seq<char>, matching: Seq<StoredProfile>) -> Result<
    LoginContent,
    FailureContent,
> {
    if matching.len() == 0 {
        Err(FailureContent::Message(not_configured(name)))
    } else if matching.len() > 1 {
        Err(FailureContent::Message(duplicated(name)))
    } else {
        match stored_verdict(matching[0]) {
            Err(failure) => Err(failure),
            Ok(settings) => match settings.credential {
                ProviderCredential::Keyless => Err(
                    FailureContent::Message(
                        "provider profile '"@ + name + "' is keyless and does not require login"@,
                    ),
                ),
                ProviderCredential::Stored(reference) => if settings.profile is Chatgpt {
                    Ok(LoginContent::OAuth { path: reference.path@ })
                } else {
                    Ok(
                        LoginContent::ApiKey {
                            path: reference.path@,
                            named_source: optional_text(matching[0].named_source),
                        },
                    )
                },
            },
        }
    }
}

/// Decides how an existing profile is authenticated.
pub fn login_profile(name: &str, profiles: Vec<StoredProfile>) -> (res: Result<
    LoginAction,
    ProfileFailure,
>)
    ensures
        match res {
            Ok(action) => login_of(name@, profiles_of(profiles@, name@)) == Ok::<
                LoginContent,
                FailureContent,
            >(action.content()),
            Err(failure) => login_of(name@, profiles_of(profiles@, name@)) == Err::<
                LoginContent,
                FailureContent,
            >(failure.content()),
        },
{
    let mut matching = keep_profiles(profiles, name);
    if matching.len() == 0 {
        return Err(ProfileFailure::Message(write_not_configured(name)));
    }
    if matching.len() > 1 {
        return Err(ProfileFailure::Message(write_duplicated(name)));
    }
    let StoredProfile { provider, source, path, contents, reading, named_source, .. } =
        matching.remove(0);
    let (parsed, credential) = match parse_settings_profile(&contents, reading) {
        Ok(parsed) => parsed,
        Err(reason) => {
            return Err(invalid_profile(&provider, reason, source, &path));
        },
    };
    match credential {
        ProviderCredential::Keyless => {
            let mut message = "provider profile '".to_owned();
            message.append(name);
            message.append("' is keyless and does not require login");
            Err(ProfileFailure::Message(message))
        },
        ProviderCredential::Stored(reference) => match parsed {
            BuiltinProviderProfile::Chatgpt(_) => Ok(LoginAction::OAuth { path: reference.path }),
            _ => Ok(LoginAction::ApiKey { path: reference.path, named_source }),
        },
    }
}

/// What an addition does about a ChatGPT profile that config already holds.
pub enum ExistingLogin {
    /// There is none: the addition goes on.
    Absent,
    /// Ask with this prompt whether to log in now.
    Ask(String),
}

/// The content of such a decision.
pub enum ExistingContent {
    Absent,
    Ask(Seq<char>),
}

impl ExistingLogin {
    /// The content of this decision.
    pub open spec fn content(self) -> ExistingContent {
        match self {
            ExistingLogin::Absent => ExistingContent::Absent,
            ExistingLogin::Ask(prompt) => ExistingContent::Ask(prompt@),
        }
    }
}

/// The decision about the profiles of one name. Only a ChatGPT profile of config that lacks a
/// usable login is offered one, and only to a user who can answer.
pub open spec fn existing_login(
    extension: Seq<char>,
    name: Seq<char>,
    matching: Seq<StoredProfile>,
    interactive: bool,
) -> Result<ExistingContent, FailureContent> {
    if matching.len() == 0 {
        Ok(ExistingContent::Absent)
    } else if matching.len() > 1 {
        Err(FailureContent::Message(duplicated(name)))
    } else if matching[0].source != ProfileSource::Config {
        Ok(ExistingContent::Absent)
    } else {
        match stored_verdict(matching[0]) {
            Err(failure) => Err(failure),
            Ok(settings) => if !(settings.profile is Chatgpt) {
                Err(
                    FailureContent::Message("provider '"@ + name + "' already exists in config"@),
                )
            } else if matching[0].oauth == OAuthRecord::Unexpired {
                Err(
                    FailureContent::Message(
                        "provider '"@ + name
                            + "' already exists in config and is authenticated; use `"@
                            + login_command(extension, name) + "` to refresh its credentials"@,
                    ),
                )
            } else if !interactive {
                Err(
                    FailureContent::Message(
                        "provider '"@ + name
                            + "' already exists in config and needs authentication; run `"@
                            + login_command(extension, name) + "`"@,
                    ),
                )
            } else {
                Ok(
                    ExistingContent::Ask(
                        "Provider '"@ + name
                            + "' already exists in config and needs authentication. Log in now?"@,
                    ),
                )
            },
        }
    }
}

/// Decides whether an addition offers a login to a ChatGPT profile that config already holds.
pub fn offer_login_for_existing_config_profile(
    extension: &str,
    name: &str,
    profiles: Vec<StoredProfile>,
    interactive: bool,
) -> (res: Result<ExistingLogin, ProfileFailure>)
    ensures
        match res {
            Ok(decision) => existing_login(
                extension@,
                name@,
                profiles_of(profiles@, name@),
                interactive,
            ) == Ok::<ExistingContent, FailureContent>(decision.content()),
            Err(failure) => existing_login(
                extension@,
                name@,
                profiles_of(profiles@, name@),
                interactive,
            ) == Err::<ExistingContent, FailureContent>(failure.content()),
        },
{
    let mut matching = keep_profiles(profiles, name);
    if matching.len() == 0 {
        return Ok(ExistingLogin::Absent);
    }
    if matching.len() > 1 {
        return Err(ProfileFailure::Message(write_duplicated(name)));
    }
    let StoredProfile { provider, source, path, contents, reading, oauth, .. } = matching.remove(0);
    let from_config: bool = match source {
        ProfileSource::Config => true,
        ProfileSource::State => false,
    };
    if !from_config {
        return Ok(ExistingLogin::Absent);
    }
    let (parsed, _credential) = match parse_settings_profile(&contents, reading) {
        Ok(parsed) => parsed,
        Err(reason) => {
            return Err(invalid_profile(&provider, reason, source, &path));
        },
    };
    let chatgpt: bool = match parsed {
        BuiltinProviderProfile::Chatgpt(_) => true,
        _ => false,
    };
    let mut text = "provider '".to_owned();
    text.append(name);
    if !chatgpt {
        text.append("' already exists in config");
        return Err(ProfileFailure::Message(text));
    }
    let authenticated: bool = match oauth {
        OAuthRecord::Unexpired => true,
        _ => false,
    };
    if authenticated {
        text.append("' already exists in config and is authenticated; use `");
        text.append(provider_login_command(extension, name).as_str());
        text.append("` to refresh its credentials");
        return Err(ProfileFailure::Message(text));
    }
    if !interactive {
        text.append("' already exists in config and needs authentication; run `");
        text.append(provider_login_command(extension, name).as_str());
        text.append("`");
        return Err(ProfileFailure::Message(text));
    }
    let mut prompt = "Provider '".to_owned();
    prompt.append(name);
    prompt.append("' already exists in config and needs authentication. Log in now?");
    Ok(ExistingLogin::Ask(prompt))
}

/// Writes the message for a user who declined to log in.
pub fn login_declined(extension: &str, name: &str) -> (res: String)
    ensures
        res@ == "provider authentication cancelled; run `"@ + login_command(extension@, name@)
            + "` when ready"@,
{
    let mut text = "provider authentication cancelled; run `".to_owned();
    text.append(provider_login_command(extension, name).as_str());
    text.append("` when ready");
    text
}

/// Writes the notice of an authenticated provider.
pub fn authenticated_notice(extension: &str, name: &str) -> (res: String)
    ensures
        res@ == "Authenticated provider '"@ + name@ + "' for extension '"@ + extension@
            + "'; settings were unchanged."@,
{
    let mut text = "Authenticated provider '".to_owned();
    text.append(name);
    text.append("' for extension '");
    text.append(extension);
    text.append("'; settings were unchanged.");
    text
}

/// Writes the notice of a removal.
pub fn removal_notice(name: &str, removed: bool) -> (res: String)
    ensures
        res@ == if removed {
            "Removed provider profile '"@ + name@ + "'."@
        } else {
            "Provider profile '"@ + name@ + "' was not configured."@
        },
{
    if removed {
        let mut text = "Removed provider profile '".to_owned();
        text.append(name);
        text.append("'.");
        text
    } else {
        let mut text = "Provider profile '".to_owned();
        text.append(name);
        text.append("' was not configured.");
        text
    }
}

/// Writes the notice of a renaming.
pub fn rename_notice(source: ProfileSource, old_name: &str, new_name: &str) -> (res: String)
    ensures
        res@ == "Renamed "@ + source.word() + " provider profile '"@ + old_name@ + "' to '"@
            + new_name@ + "'; credentials were unchanged."@,
{
    let mut text = "Renamed ".to_owned();
    text.append(source.label());
    text.append(" provider profile '");
    text.append(old_name);
    text.append("' to '");
    text.append(new_name);
    text.append("'; credentials were unchanged.");
    text
}

/// Writes the notice of a registered profile.
pub fn registered_notice(extension: &str, name: &str, source: ProfileSource, path: &str) -> (res:
    String)
    ensures
        res@ == "Provider '"@ + name@ + "' registered for extension '"@ + extension@ + "' in "@
            + source.word() + ". Settings: "@ + path@,
{
    let mut text = "Provider '".to_owned();
    text.append(name);
    text.append("' registered for extension '");
    text.append(extension);
    text.append("' in ");
    text.append(source.label());
    text.append(". Settings: ");
    text.append(path);
    text
}

/// An argument at `from` or behind it is `word`.
pub open spec fn given(args: Seq<String>, from: int, word: Seq<char>) -> bool {
    exists|j: int| from <= j < args.len() && (#[trigger] args[j])@ == word
}

proof fn lemma_given_step(args: Seq<String>, i: int, word: Seq<char>)
    requires
        0 <= i < args.len(),
    ensures
        given(args, i, word) == (args[i]@ == word || given(args, i + 1, word)),
{
    if given(args, i, word) {
        let j = choose|j: int| i <= j < args.len() && (#[trigger] args[j])@ == word;
        if j > i {
            assert(given(args, i + 1, word));
        }
    }
    if given(args, i + 1, word) {
        let j = choose|j: int| i + 1 <= j < args.len() && (#[trigger] args[j])@ == word;
        assert(args[j]@ == word);
    }
}

proof fn lemma_option_words()
    ensures
        begins_with("--state"@, '-'),
        begins_with("--config"@, '-'),
        begins_with("--output"@, '-'),
        begins_with("-"@, '-'),
        "--state"@ != "--config"@,
        "--state"@ != "--output"@,
        "--state"@ != "-"@,
        "--config"@ != "--output"@,
        "--config"@ != "-"@,
        "--output"@ != "-"@,
{
    reveal_strlit("--state");
    reveal_strlit("--config");
    reveal_strlit("--output");
    reveal_strlit("-");
    assert("--state"@.len() == 7 && "--config"@.len() == 8 && "--output"@.len() == 8 && "-"@.len()
        == 1);
    assert("--config"@[2] == 'c' && "--output"@[2] == 'o');
}

/// What the arguments from `i` on add to an addition's scan.
proof fn lemma_add_scanned(args: Seq<String>, i: int, scan: AddScan, out: AddScan)
    requires
        0 <= i <= args.len(),
        add_scanned(args, i, scan) == Ok::<AddScan, Seq<char>>(out),
    ensures
        scan.source is Some ==> out.source == scan.source && !given(args, i, "--state"@) && !given(
            args,
            i,
            "--config"@,
        ),
        scan.source is None ==> (out.source == Some(ProfileSource::Config) <==> given(
            args,
            i,
            "--config"@,
        )) && (out.source == Some(ProfileSource::State) <==> given(args, i, "--state"@)),
        out.stdout <==> scan.stdout || given(args, i, "--output"@),
        scan.stdout ==> !given(args, i, "--output"@),
        scan.kinds.len() <= out.kinds.len(),
        out.kinds.take(scan.kinds.len() as int) == scan.kinds,
        forall|k: int|
            scan.kinds.len() <= k < out.kinds.len() ==> given(args, i, #[trigger] out.kinds[k])
                && !begins_with(out.kinds[k], '-'),
        forall|j: int|
            i <= j < args.len() && !begins_with((#[trigger] args[j])@, '-') ==> out.kinds.len()
                > scan.kinds.len(),
        forall|j: int|
            i <= j < args.len() && begins_with((#[trigger] args[j])@, '-') ==> args[j]@
                == "--state"@ || args[j]@ == "--config"@ || args[j]@ == "--output"@ || args[j]@
                == "-"@,
    decreases args.len() - i,
{
    lemma_option_words();
    if i < args.len() {
        let arg = args[i]@;
        lemma_given_step(args, i, "--state"@);
        lemma_given_step(args, i, "--config"@);
        lemma_given_step(args, i, "--output"@);
        if arg == "--state"@ || arg == "--config"@ {
            let source = if arg == "--state"@ {
                ProfileSource::State
            } else {
                ProfileSource::Config
            };
            lemma_add_scanned(args, i + 1, AddScan { source: Some(source), ..scan }, out);
            assert forall|k: int| scan.kinds.len() <= k < out.kinds.len() implies given(
                args,
                i,
                #[trigger] out.kinds[k],
            ) by {
                lemma_given_step(args, i, out.kinds[k]);
            }
        } else if arg == "--output"@ && i + 1 < args.len() && args[i + 1]@ == "-"@ {
            lemma_given_step(args, i + 1, "--state"@);
            lemma_given_step(args, i + 1, "--config"@);
            lemma_given_step(args, i + 1, "--output"@);
            lemma_add_scanned(args, i + 2, AddScan { stdout: true, ..scan }, out);
            assert forall|k: int| scan.kinds.len() <= k < out.kinds.len() implies given(
                args,
                i,
                #[trigger] out.kinds[k],
            ) by {
                lemma_given_step(args, i, out.kinds[k]);
                lemma_given_step(args, i + 1, out.kinds[k]);
            }
        } else {
            let next = AddScan { kinds: scan.kinds.push(arg), ..scan };
            lemma_add_scanned(args, i + 1, next, out);
            assert(out.kinds.take(next.kinds.len() as int).take(scan.kinds.len() as int)
                == out.kinds.take(scan.kinds.len() as int));
            assert(next.kinds.take(scan.kinds.len() as int) == scan.kinds);
            assert(out.kinds[scan.kinds.len() as int] == out.kinds.take(
                next.kinds.len() as int,
            )[scan.kinds.len() as int]);
            assert forall|k: int| scan.kinds.len() <= k < out.kinds.len() implies given(
                args,
                i,
                #[trigger] out.kinds[k],
            ) && !begins_with(out.kinds[k], '-') by {
                lemma_given_step(args, i, out.kinds[k]);
            }
        }
    } else {
        assert(out.kinds.take(scan.kinds.len() as int) == scan.kinds);
    }
}

/// An addition does what its arguments ask for: it goes to the configuration exactly when
/// `--config` is given, to the standard output exactly when `--output` is, and to the state
/// otherwise; the kind is the one argument that is no option.
pub proof fn addition_does_what_is_asked(args: Seq<String>, request: AddRequest)
    requires
        parsed_addition(args) == Ok::<AddRequest, Seq<char>>(request),
    ensures
        request.target == ProfileTarget::State <==> !given(args, 0, "--config"@),
        request.target == ProfileTarget::Stdout <==> given(args, 0, "--output"@),
        request.implicit_state_target <==> !given(args, 0, "--config"@) && !given(
            args,
            0,
            "--state"@,
        ),
        !(given(args, 0, "--config"@) && given(args, 0, "--state"@)),
        given(args, 0, "--output"@) ==> given(args, 0, "--config"@),
        request.kind is None <==> forall|j: int|
            0 <= j < args.len() ==> begins_with((#[trigger] args[j])@, '-'),
        match request.kind {
            None => true,
            Some(ProviderKind::Chatgpt) => given(args, 0, "chatgpt"@),
            Some(ProviderKind::ChatCompletions) => given(args, 0, "chat-completions"@),
            Some(ProviderKind::Responses) => given(args, 0, "responses"@),
            Some(ProviderKind::OpenRouter) => given(args, 0, "openrouter"@),
        },
        forall|j: int|
            0 <= j < args.len() && begins_with((#[trigger] args[j])@, '-') ==> args[j]@
                == "--state"@ || args[j]@ == "--config"@ || args[j]@ == "--output"@ || args[j]@
                == "-"@,
{
    let out = add_scanned(args, 0, nothing_scanned())->Ok_0;
    lemma_add_scanned(args, 0, nothing_scanned(), out);
    if let Some(source) = out.source {
        assert(source is Config || source is State);
        assert(source == ProfileSource::Config || source == ProfileSource::State);
    }
    if out.kinds.len() > 0 {
        assert(given(args, 0, out.kinds[0]));
        let j = choose|j: int| 0 <= j < args.len() && (#[trigger] args[j])@ == out.kinds[0];
        assert(!begins_with(args[j]@, '-'));
    }
}

/// An argument that is the name of a kind.
pub open spec fn names_a_kind(word: Seq<char>) -> bool {
    word == "chatgpt"@ || word == "chat-completions"@ || word == "responses"@ || word
        == "openrouter"@
}

proof fn lemma_kind_words(word: Seq<char>)
    requires
        names_a_kind(word),
    ensures
        !begins_with(word, '-'),
        word != "--state"@ && word != "--config"@ && word != "--output"@ && word != "-"@,
        kind_named(word) is Some,
{
    lemma_option_words();
    reveal_strlit("chatgpt");
    reveal_strlit("chat-completions");
    reveal_strlit("responses");
    reveal_strlit("openrouter");
    assert(word[0] == 'c' || word[0] == 'r' || word[0] == 'o');
}

/// A kind, a source option, or both in either order make an addition.
pub proof fn kind_and_source_are_accepted(args: Seq<String>)
    requires
        args.len() <= 2,
        forall|j: int|
            0 <= j < args.len() ==> names_a_kind((#[trigger] args[j])@) || args[j]@ == "--state"@
                || args[j]@ == "--config"@,
        args.len() == 2 ==> names_a_kind(args[0]@) != names_a_kind(args[1]@),
    ensures
        parsed_addition(args) is Ok,
{
    lemma_option_words();
    reveal_with_fuel(add_scanned, 4);
    assert forall|j: int| 0 <= j < args.len() && names_a_kind(
        (#[trigger] args[j])@,
    ) implies !begins_with(args[j]@, '-') && args[j]@ != "--state"@ && args[j]@ != "--config"@
        && args[j]@ != "--output"@ && kind_named(args[j]@) is Some by {
        lemma_kind_words(args[j]@);
    }
    assert(Seq::<Seq<char>>::empty().push(args[0]@)[0] == args[0]@);
    assert(Seq::<Seq<char>>::empty().push(args[1]@)[0] == args[1]@);
}

/// What the arguments from `i` on add to a removal's scan.
proof fn lemma_remove_scanned(args: Seq<String>, i: int, scan: RemoveScan, out: RemoveScan)
    requires
        0 <= i <= args.len(),
        remove_scanned(args, i, scan) == Ok::<RemoveScan, Seq<char>>(out),
    ensures
        scan.source is Some ==> out.source == scan.source && !given(args, i, "--state"@) && !given(
            args,
            i,
            "--config"@,
        ),
        scan.source is None ==> (out.source == Some(ProfileSource::Config) <==> given(
            args,
            i,
            "--config"@,
        )) && (out.source == Some(ProfileSource::State) <==> given(args, i, "--state"@)),
        scan.name is Some ==> out.name == scan.name,
        scan.name is None && out.name is Some ==> given(args, i, out.name->0) && !begins_with(
            out.name->0,
            '-',
        ),
        forall|j: int|
            i <= j < args.len() ==> if begins_with((#[trigger] args[j])@, '-') {
                args[j]@ == "--state"@ || args[j]@ == "--config"@
            } else {
                scan.name is None && out.name == Some(args[j]@)
            },
    decreases args.len() - i,
{
    lemma_option_words();
    if i < args.len() {
        let arg = args[i]@;
        lemma_given_step(args, i, "--state"@);
        lemma_given_step(args, i, "--config"@);
        if arg == "--state"@ || arg == "--config"@ {
            let source = if arg == "--state"@ {
                ProfileSource::State
            } else {
                ProfileSource::Config
            };
            lemma_remove_scanned(args, i + 1, RemoveScan { source: Some(source), ..scan }, out);
        } else {
            lemma_remove_scanned(args, i + 1, RemoveScan { name: Some(arg), ..scan }, out);
        }
        if out.name is Some {
            lemma_given_step(args, i, out.name->0);
        }
    }
}

/// A removal takes the one argument that is no option as the name, and the source that its
/// option names.
pub proof fn removal_does_what_is_asked(
    args: Seq<String>,
    res: Result<RemoveRequest, String>,
    request: RemoveRequest,
)
    requires
        removal(res) == remove_scanned(args, 0, (RemoveScan { source: None, name: None })),
        res == Ok::<RemoveRequest, String>(request),
    ensures
        request.source == Some(ProfileSource::Config) <==> given(args, 0, "--config"@),
        request.source == Some(ProfileSource::State) <==> given(args, 0, "--state"@),
        request.name matches Some(name) ==> given(args, 0, name@) && !begins_with(name@, '-'),
        forall|j: int|
            0 <= j < args.len() ==> if begins_with((#[trigger] args[j])@, '-') {
                args[j]@ == "--state"@ || args[j]@ == "--config"@
            } else {
                request.name is Some && request.name->0@ == args[j]@
            },
{
    let out = RemoveScan { source: request.source, name: optional_text(request.name) };
    lemma_remove_scanned(args, 0, (RemoveScan { source: None, name: None }), out);
}

/// A name, a source option, or both in either order make a removal.
pub proof fn name_and_source_are_accepted(args: Seq<String>)
    requires
        args.len() <= 2,
        forall|j: int|
            0 <= j < args.len() ==> !begins_with((#[trigger] args[j])@, '-') || args[j]@
                == "--state"@ || args[j]@ == "--config"@,
        args.len() == 2 ==> begins_with(args[0]@, '-') != begins_with(args[1]@, '-'),
    ensures
        remove_scanned(args, 0, (RemoveScan { source: None, name: None })) is Ok,
{
    lemma_option_words();
    reveal_with_fuel(remove_scanned, 4);
}

/// The first argument chooses the subcommand by its word, whatever follows it.
pub proof fn first_word_chooses_the_subcommand(
    args: Seq<String>,
    res: Result<Subcommand, String>,
)
    requires
        outcome(res) == chosen_subcommand(args),
    ensures
        args.len() == 0 ==> res == Ok::<Subcommand, String>(Subcommand::Help),
        args.len() > 0 ==> match res {
            Ok(Subcommand::Add) => args[0]@ == "add"@,
            Ok(Subcommand::Login) => args[0]@ == "login"@,
            Ok(Subcommand::Remove) => args[0]@ == "remove"@ || args[0]@ == "delete"@,
            Ok(Subcommand::Rename) => args[0]@ == "rename"@,
            Ok(Subcommand::List) => args[0]@ == "list"@ || args[0]@ == "status"@,
            Ok(Subcommand::Show) => args[0]@ == "show"@,
            Ok(Subcommand::Help) => args[0]@ == "help"@ || args[0]@ == "--help"@ || args[0]@
                == "-h"@,
            Err(message) => {
                &&& message@ == "unknown provider subcommand: "@ + args[0]@
                &&& args[0]@ != "add"@ && args[0]@ != "login"@ && args[0]@ != "remove"@
                &&& args[0]@ != "delete"@ && args[0]@ != "rename"@ && args[0]@ != "list"@
                &&& args[0]@ != "status"@ && args[0]@ != "show"@ && args[0]@ != "help"@
                &&& args[0]@ != "--help"@ && args[0]@ != "-h"@
            },
        },
{
}

/// A listing shows every source unless one option restricts it.
pub proof fn listing_is_restricted_by_its_option(
    args: Seq<String>,
    res: Result<Option<ProfileSource>, String>,
)
    requires
        outcome(res) == list_filter(args),
    ensures
        res is Ok <==> args.len() == 0 || (args.len() == 1 && (args[0]@ == "--all"@ || args[0]@
            == "--config"@ || args[0]@ == "--state"@)),
        res matches Ok(Some(ProfileSource::Config)) ==> args[0]@ == "--config"@,
        res matches Ok(Some(ProfileSource::State)) ==> args[0]@ == "--state"@,
        res == Ok::<Option<ProfileSource>, String>(None) ==> args.len() == 0 || args[0]@
            == "--all"@,
{
}

/// Only an enabled entry without a command of its own runs the provider; its role, where it has
/// one, is that of a provider; and only the default entry needs no suffix.
pub proof fn provider_entries_are_recognized(entry: ExtensionEntry)
    ensures
        is_builtin_provider(entry) ==> {
            &&& entry.enable != Some(false)
            &&& !entry.has_command
            &&& entry.role matches Some(role) ==> role@ == "provider"@
            &&& entry.has_suffix ==> entry.suffix_is_provider
            &&& entry.name@ != "provider-builtin"@ ==> entry.has_suffix && entry.role is Some
        },
        entry.enable != Some(false) && !entry.has_command && (entry.role matches Some(role)
            ==> role@ == "provider"@) && (entry.has_suffix ==> entry.suffix_is_provider) && (
        entry.name@ == "provider-builtin"@ || (entry.has_suffix && entry.role is Some))
            ==> is_builtin_provider(entry),
{
}

/// A command addresses the extension that it names, or the default one when it names none; the
/// extension is an enabled entry of the configuration, or the default one without an entry.
pub proof fn command_addresses_a_provider(
    args: Seq<String>,
    entries: Seq<ExtensionEntry>,
    invalid: Map<Seq<char>, String>,
    extension: Seq<char>,
)
    requires
        addressed_extension(args, entries, invalid) == Ok::<Seq<char>, Seq<char>>(extension),
    ensures
        !(args.len() > 0 && args[0]@ == "--extension"@) ==> extension == "provider-builtin"@
            && remaining_args(args) == args,
        args.len() > 0 && args[0]@ == "--extension"@ ==> {
            &&& args.len() >= 2
            &&& extension == args[1]@
            &&& remaining_args(args).len() == args.len() - 2
            &&& forall|i: int|
                0 <= i < args.len() - 2 ==> #[trigger] remaining_args(args)[i] == args[i + 2]
        },
        !invalid.contains_key(extension),
        (forall|i: int| 0 <= i < entries.len() ==> (#[trigger] entries[i]).name@ != extension)
            ==> extension == "provider-builtin"@,
        (exists|i: int| 0 <= i < entries.len() && (#[trigger] entries[i]).name@ == extension)
            ==> exists|i: int|
            0 <= i < entries.len() && (#[trigger] entries[i]).name@ == extension
                && entries[i].enable != Some(false) && !entries[i].has_command,
{
}

/// A default extension that the configuration does not mention is addressed without an option.
pub proof fn unmentioned_default_is_addressed(
    args: Seq<String>,
    entries: Seq<ExtensionEntry>,
    invalid: Map<Seq<char>, String>,
)
    requires
        args.len() == 0 || args[0]@ != "--extension"@,
        forall|i: int|
            0 <= i < entries.len() ==> (#[trigger] entries[i]).name@ != "provider-builtin"@,
        !invalid.contains_key("provider-builtin"@),
    ensures
        addressed_extension(args, entries, invalid) == Ok::<Seq<char>, Seq<char>>(
            "provider-builtin"@,
        ),
{
}

/// A line tells the extension, the provider, the kind, what it is reached by, how it is
/// authenticated, and its source; a login that is due is told how to log in.
pub proof fn line_tells_the_profile(
    extension: Seq<char>,
    profile: StoredProfile,
    settings: SettingsContent,
    source: Seq<char>,
)
    requires
        source == match profile.source {
            ProfileSource::Config => "config"@,
            ProfileSource::State => "state"@,
        },
    ensures
        ({
            let line = profile_line(extension, profile, settings);
            let start = extension + "\t"@ + profile.provider@ + "\t"@;
            let status = if settings.credential is Stored && profile.has_api_key {
                "api-key"@
            } else {
                "no-api-key"@
            };
            match settings.profile {
                ProfileContent::Chatgpt { lite_compatibility, .. } => {
                    let mode = if lite_compatibility {
                        "responses-lite-compatibility"@
                    } else {
                        "responses-standard"@
                    };
                    match profile.oauth {
                        OAuthRecord::Unexpired => line == extension + "\t"@ + profile.provider@
                            + "\tchatgpt\t"@ + "logged-in"@ + "\t"@ + mode + "\t"@ + source
                            + "\n"@,
                        OAuthRecord::Expired => line == extension + "\t"@ + profile.provider@
                            + "\tchatgpt\t"@ + "expired"@ + "\t"@ + mode + "\t"@ + source
                            + "\tlogin: "@ + login_command(extension, profile.provider@) + "\n"@,
                        OAuthRecord::Missing => line == extension + "\t"@ + profile.provider@
                            + "\tchatgpt\t"@ + "not-configured"@ + "\t"@ + mode + "\t"@ + source
                            + "\tlogin: "@ + login_command(extension, profile.provider@) + "\n"@,
                    }
                },
                ProfileContent::ChatCompletions(route) => line == start + "chat_completions"@
                    + "\t"@ + route.base_url + "\t"@ + model_ids(route.models) + "\t"@ + status
                    + "\t"@ + source + "\n"@,
                ProfileContent::OpenRouter(route) => line == start + "openrouter"@ + "\t"@
                    + "https://openrouter.ai/api/v1"@ + "\t"@ + model_ids(route.models) + "\t"@
                    + status + "\t"@ + source + "\n"@,
                ProfileContent::Responses(route) => line == start + "responses"@ + "\t"@
                    + route.base_url + "\t"@ + model_ids(route.models) + "\t"@ + status + "\t"@
                    + source + "\n"@,
            }
        }),
{
}

/// The login command names the extension exactly when it is not the default one.
pub proof fn login_command_can_be_run(extension: Seq<char>, name: Seq<char>)
    ensures
        extension == "provider-builtin"@ ==> login_command(extension, name)
            == "tau provider login "@ + name,
        extension != "provider-builtin"@ ==> login_command(extension, name)
            == "tau provider --extension "@ + extension + " login "@ + name,
{
}

/// A listing of two runs of profiles is the listing of the first followed by that of the second;
/// nothing follows a failure.
pub proof fn listing_is_in_order(
    extension: Seq<char>,
    filter: Option<ProfileSource>,
    first: Seq<StoredProfile>,
    second: Seq<StoredProfile>,
)
    ensures
        listed(extension, filter, first).failure is None ==> {
            &&& listed(extension, filter, first + second).output == listed(
                extension,
                filter,
                first,
            ).output + listed(extension, filter, second).output
            &&& listed(extension, filter, first + second).displayed == listed(
                extension,
                filter,
                first,
            ).displayed + listed(extension, filter, second).displayed
            &&& listed(extension, filter, first + second).failure == listed(
                extension,
                filter,
                second,
            ).failure
        },
        listed(extension, filter, first).failure is Some ==> listed(
            extension,
            filter,
            first + second,
        ) == listed(extension, filter, first),
    decreases second.len(),
{
    if second.len() == 0 {
        assert(first + second == first);
    } else {
        assert((first + second).drop_last() == first + second.drop_last());
        assert((first + second).last() == second.last());
        listing_is_in_order(extension, filter, first, second.drop_last());
        if listed(extension, filter, first).failure is None {
            let head = listed(extension, filter, first).output;
            let tail = listed(extension, filter, second.drop_last()).output;
            match listed_line(extension, second.last()) {
                Ok(line) => {
                    assert((head + tail) + line == head + (tail + line));
                },
                Err(_) => {},
            }
        }
    }
}

/// One profile gives its line when its settings are accepted, its failure when they are not, and
/// nothing when the listing is restricted to the other source.
pub proof fn listing_shows_one_profile(
    extension: Seq<char>,
    filter: Option<ProfileSource>,
    profile: StoredProfile,
)
    ensures
        ({
            let listing = listed(extension, filter, seq![profile]);
            let verdict = settings_verdict(settings_document(profile.contents@), profile.reading);
            if filter is Some && filter->0 != profile.source {
                listing.output.len() == 0 && listing.displayed == 0 && listing.failure is None
            } else {
                match verdict {
                    Ok(settings) => listing.output == profile_line(extension, profile, settings)
                        && listing.displayed == 1 && listing.failure is None,
                    Err(reason) => listing.output.len() == 0 && listing.displayed == 0
                        && listing.failure == Some(
                        FailureContent::Invalid {
                            provider: profile.provider@,
                            reason,
                            source: profile.source,
                            path: profile.path@,
                        },
                    ),
                }
            }
        }),
{
    assert(seq![profile].drop_last() == Seq::<StoredProfile>::empty());
    reveal_with_fuel(listed, 2);
    match listed_line(extension, profile) {
        Ok(line) => {
            assert(Seq::<char>::empty() + line == line);
        },
        Err(_) => {},
    }
}

/// An empty listing says so, unless it stopped at a failure.
pub proof fn empty_listing_says_so(listing: ListingContent)
    ensures
        listing.displayed == 0 && listing.failure is None ==> listing_output(listing)
            == "No providers configured.\n"@,
        listing.displayed > 0 || listing.failure is Some ==> listing_output(listing)
            == listing.output,
{
}

/// How often a name occurs shows in how many profiles are kept for it.
proof fn lemma_profiles_of(profiles: Seq<StoredProfile>, name: Seq<char>, i: int, j: int)
    ensures
        none_of(profiles, name) ==> profiles_of(profiles, name).len() == 0,
        0 <= i < profiles.len() && profiles[i].provider@ == name ==> profiles_of(
            profiles,
            name,
        ).len() > 0,
        0 <= i < profiles.len() && profiles[i].provider@ == name && (forall|k: int|
            0 <= k < profiles.len() && k != i ==> (#[trigger] profiles[k]).provider@ != name)
            ==> profiles_of(profiles, name) == seq![profiles[i]],
        0 <= i < j < profiles.len() && profiles[i].provider@ == name && profiles[j].provider@
            == name ==> profiles_of(profiles, name).len() > 1,
    decreases profiles.len(),
{
    if profiles.len() > 0 {
        let rest = profiles.drop_last();
        let n = rest.len() as int;
        assert forall|k: int| 0 <= k < n implies #[trigger] rest[k] == profiles[k] by {}
        lemma_profiles_of(rest, name, i, j);
        if none_of(profiles, name) {
            assert(profiles[n].provider@ != name);
            assert(none_of(rest, name));
        }
        if 0 <= i < profiles.len() && profiles[i].provider@ == name && (forall|k: int|
            0 <= k < profiles.len() && k != i ==> (#[trigger] profiles[k]).provider@ != name) {
            if i == n {
                assert forall|k: int| 0 <= k < rest.len() implies (#[trigger] rest[k]).provider@
                    != name by {
                    assert(profiles[k].provider@ != name);
                }
                assert(none_of(rest, name));
                assert(profiles_of(profiles, name) == seq![profiles[i]]);
            } else {
                assert(profiles[n].provider@ != name);
                assert forall|k: int| 0 <= k < rest.len() && k != i implies (
                #[trigger] rest[k]).provider@ != name by {
                    assert(profiles[k].provider@ != name);
                }
            }
        }
    }
}

/// A login goes to the one profile of the name, to the record that its settings refer to, in the
/// way that its kind asks for.
pub proof fn login_goes_to_the_own_record(
    name: Seq<char>,
    profiles: Seq<StoredProfile>,
    action: LoginAction,
    i: int,
)
    requires
        login_of(name, profiles_of(profiles, name)) == Ok::<LoginContent, FailureContent>(
            action.content(),
        ),
        0 <= i < profiles.len(),
        profiles[i].provider@ == name,
    ensures
        forall|j: int|
            0 <= j < profiles.len() && j != i ==> (#[trigger] profiles[j]).provider@ != name,
        profiles[i].reading.profile is Some,
        profiles[i].reading.credential matches Some(ProviderCredential::Stored(reference))
            && match action {
            LoginAction::OAuth { path } => path@ == reference.path@
                && profiles[i].reading.profile->0.content() is Chatgpt,
            LoginAction::ApiKey { path, named_source } => path@ == reference.path@
                && optional_text(named_source) == optional_text(profiles[i].named_source) && !(
            profiles[i].reading.profile->0.content() is Chatgpt),
        },
{
    assert forall|j: int| 0 <= j < profiles.len() && j != i implies (
    #[trigger] profiles[j]).provider@ != name by {
        if profiles[j].provider@ == name {
            if i < j {
                lemma_profiles_of(profiles, name, i, j);
            } else {
                lemma_profiles_of(profiles, name, j, i);
            }
        }
    }
    lemma_profiles_of(profiles, name, i, i);
}

/// A login fails for a name that no profile or more than one has, for refused settings, and for a
/// keyless profile; for any other it is owed.
pub proof fn login_is_owed(name: Seq<char>, profiles: Seq<StoredProfile>, i: int, j: int)
    ensures
        none_of(profiles, name) ==> login_of(name, profiles_of(profiles, name)) == Err::<
            LoginContent,
            FailureContent,
        >(FailureContent::Message("provider profile '"@ + name + "' is not configured"@)),
        0 <= i < j < profiles.len() && profiles[i].provider@ == name && profiles[j].provider@
            == name ==> login_of(name, profiles_of(profiles, name)) == Err::<
            LoginContent,
            FailureContent,
        >(
            FailureContent::Message(
                "provider profile '"@ + name + "' is duplicated across config and state"@,
            ),
        ),
        0 <= i < profiles.len() && profiles[i].provider@ == name && (forall|k: int|
            0 <= k < profiles.len() && k != i ==> (#[trigger] profiles[k]).provider@ != name) ==> (
        login_of(name, profiles_of(profiles, name)) is Ok <==> settings_verdict(
            settings_document(profiles[i].contents@),
            profiles[i].reading,
        ) is Ok && profiles[i].reading.credential->0 is Stored),
{
    lemma_profiles_of(profiles, name, i, j);
}

/// An addition whose name is free, or whose one profile is kept in the state, goes on; one that
/// would replace a configured profile never does, and asks to log in only where a login is due
/// and can be made.
pub proof fn configured_profile_is_not_replaced(
    extension: Seq<char>,
    name: Seq<char>,
    profiles: Seq<StoredProfile>,
    interactive: bool,
    i: int,
    j: int,
)
    ensures
        ({
            let res = existing_login(extension, name, profiles_of(profiles, name), interactive);
            let only = 0 <= i < profiles.len() && profiles[i].provider@ == name && (forall|k: int|
                0 <= k < profiles.len() && k != i ==> (#[trigger] profiles[k]).provider@ != name);
            &&& none_of(profiles, name) ==> res == Ok::<ExistingContent, FailureContent>(
                ExistingContent::Absent,
            )
            &&& 0 <= i < j < profiles.len() && profiles[i].provider@ == name
                && profiles[j].provider@ == name ==> res is Err
            &&& only && profiles[i].source == ProfileSource::State ==> res == Ok::<
                ExistingContent,
                FailureContent,
            >(ExistingContent::Absent)
            &&& only && profiles[i].source == ProfileSource::Config ==> {
                &&& res is Ok <==> interactive && profiles[i].oauth != OAuthRecord::Unexpired
                    && settings_verdict(
                    settings_document(profiles[i].contents@),
                    profiles[i].reading,
                ) is Ok && profiles[i].reading.profile->0.content() is Chatgpt
                &&& res is Ok ==> res->Ok_0 is Ask
            }
        }),
{
    lemma_profiles_of(profiles, name, i, j);
}

/// Models are shown by their names, in their order, with a comma between each two.
pub proof fn models_are_shown_by_name(
    model: ModelEntry,
    first: Seq<ModelEntry>,
    second: Seq<ModelEntry>,
)
    ensures
        model_ids(Seq::empty()).len() == 0,
        model_ids(seq![model]) == model.id@,
        first.len() > 0 && second.len() > 0 ==> model_ids(first + second) == model_ids(first)
            + ","@ + model_ids(second),
{
    let a = Seq::new(first.len(), |i: int| first[i].id@);
    let b = Seq::new(second.len(), |i: int| second[i].id@);
    let both = first + second;
    assert(Seq::new(both.len(), |i: int| both[i].id@) == a + b);
    joined_lists_have_commas_between(a, b);
}

/// A login is refused for want of a name, or for more than one.
pub proof fn login_takes_one_name(args: Seq<String>)
    ensures
        args.len() > 0 && args[0]@ == "login"@ ==> (login_misused(args) <==> args.len() != 2),
        args.len() == 0 || args[0]@ != "login"@ ==> !login_misused(args),
{
}

/// A shown profile tells where it comes from and prints its settings.
pub proof fn shown_profile_tells_its_source(profile: StoredProfile, text: Seq<char>)
    requires
        shown(profile, text),
    ensures
        json_document(profile.contents@) matches Some(document) && json_pretty(
            document,
        ) matches Some(printed) && text == "source: "@ + (match profile.source {
            ProfileSource::Config => "config"@,
            ProfileSource::State => "state"@,
        }) + "\npath: "@ + profile.path@ + "\n"@ + printed + "\n"@,
{
}

} // verus!
