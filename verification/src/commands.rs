//! The command-line surface: the flags of the default action and the
//! subcommands with their usage lines and flags.

use vstd::prelude::*;
use crate::invocation::{StoreCommand, store_command_name, docker_run, create_run, add_run, find_rest};

verus! {

/// The kind of value a flag takes.
#[derive(Clone, Copy, Debug, PartialEq, Eq, Structural)]
pub enum FlagKind {
    Bool,
    Int,
    Str,
}

/// The action a command runs.
#[derive(Clone, Copy, Debug, PartialEq, Eq, Structural)]
pub enum CommandAction {
    /// The greeting of the tool itself, without a subcommand.
    Default,
    Calc,
    Create,
    Add,
    Update,
    Find,
    Rollback,
    Rollforward,
    WormholeSend,
    WormholeRecv,
}

/// A flag: its name, usage line, kind and short alias.
pub struct FlagSpec {
    pub name: String,
    pub usage: String,
    pub kind: FlagKind,
    pub alias: String,
}

pub struct FlagView {
    pub name: Seq<char>,
    pub usage: Seq<char>,
    pub kind: FlagKind,
    pub alias: Seq<char>,
}

impl View for FlagSpec {
    type V = FlagView;

    open spec fn view(&self) -> FlagView {
        FlagView { name: self.name@, usage: self.usage@, kind: self.kind, alias: self.alias@ }
    }
}

/// A subcommand: its name, usage line, the action it runs, and its flags.
pub struct CommandSpec {
    pub name: String,
    pub usage: String,
    pub action: CommandAction,
    pub flags: Vec<FlagSpec>,
}

pub struct CommandView {
    pub name: Seq<char>,
    pub usage: Seq<char>,
    pub action: CommandAction,
    pub flags: Seq<FlagView>,
}

pub open spec fn flag_views(flags: Seq<FlagSpec>) -> Seq<FlagView> {
    flags.map_values(|f: FlagSpec| f@)
}

impl View for CommandSpec {
    type V = CommandView;

    open spec fn view(&self) -> CommandView {
        CommandView {
            name: self.name@,
            usage: self.usage@,
            action: self.action,
            flags: flag_views(self.flags@),
        }
    }
}

/// The whole surface: the usage line, action and flags of the tool without
/// a subcommand, and the subcommands in the order they are registered.
pub struct AppSpec {
    pub usage: String,
    pub action: CommandAction,
    pub flags: Vec<FlagSpec>,
    pub commands: Vec<CommandSpec>,
}

pub open spec fn fv(name: Seq<char>, usage: Seq<char>, kind: FlagKind, alias: Seq<char>) -> FlagView {
    FlagView { name, usage, kind, alias }
}

pub open spec fn cv(
    name: Seq<char>,
    usage: Seq<char>,
    action: CommandAction,
    flags: Seq<FlagView>,
) -> CommandView {
    CommandView { name, usage, action, flags }
}

/// The `--store-name(-n)` flag of the store subcommands.
pub open spec fn store_name_flag(usage: Seq<char>) -> FlagView {
    fv("store-name"@, usage, FlagKind::Str, "n"@)
}

fn flag(name: &str, usage: &str, kind: FlagKind, alias: &str) -> (r: FlagSpec)
    ensures
        r@ == fv(name@, usage@, kind, alias@),
{
    FlagSpec { name: name.to_owned(), usage: usage.to_owned(), kind, alias: alias.to_owned() }
}

fn command_with_flag(name: &str, usage: &str, action: CommandAction, f: FlagSpec) -> (r: CommandSpec)
    ensures
        r@ == cv(name@, usage@, action, seq![f@]),
{
    let mut flags: Vec<FlagSpec> = Vec::new();
    flags.push(f);
    let r = CommandSpec { name: name.to_owned(), usage: usage.to_owned(), action, flags };
    assert(flag_views(r.flags@) =~= seq![f@]);
    r
}

fn store_command(name: &str, usage: &str, action: CommandAction, flag_usage: &str) -> (r:
    CommandSpec)
    ensures
        r@ == cv(name@, usage@, action, seq![store_name_flag(flag_usage@)]),
{
    command_with_flag(name, usage, action, flag("store-name", flag_usage, FlagKind::Str, "n"))
}

pub open spec fn calc_command_view() -> CommandView {
    cv(
        "calc"@,
        "cli calc [nums...]"@,
        CommandAction::Calc,
        seq![fv("operator"@, "cli calc [nums...] --operator(-op) [add | sub]"@, FlagKind::Str, "op"@)],
    )
}

pub fn calc_command() -> (r: CommandSpec)
    ensures
        r@ == calc_command_view(),
{
    command_with_flag(
        "calc",
        "cli calc [nums...]",
        CommandAction::Calc,
        flag("operator", "cli calc [nums...] --operator(-op) [add | sub]", FlagKind::Str, "op"),
    )
}

pub open spec fn create_command_view() -> CommandView {
    cv(
        "create"@,
        "cli create [mnemonic]"@,
        CommandAction::Create,
        seq![store_name_flag("cli create [mnemonic] --store-name(-n) [name]"@)],
    )
}

pub fn create_command() -> (r: CommandSpec)
    ensures
        r@ == create_command_view(),
{
    store_command(
        "create",
        "cli create [mnemonic]",
        CommandAction::Create,
        "cli create [mnemonic] --store-name(-n) [name]",
    )
}

pub open spec fn addfile_command_view() -> CommandView {
    cv(
        "add"@,
        "cli add [file] [tags...]"@,
        CommandAction::Add,
        seq![store_name_flag("cli add [file] [tags...]  --store-name(-n) [name]"@)],
    )
}

pub fn addfile_command() -> (r: CommandSpec)
    ensures
        r@ == addfile_command_view(),
{
    store_command(
        "add",
        "cli add [file] [tags...]",
        CommandAction::Add,
        "cli add [file] [tags...]  --store-name(-n) [name]",
    )
}

pub open spec fn updatefile_command_view() -> CommandView {
    cv(
        "update"@,
        "cli update [addr] [file]"@,
        CommandAction::Update,
        seq![store_name_flag("cli update [file] [addr] --store-name(-n) [name]"@)],
    )
}

pub fn updatefile_command() -> (r: CommandSpec)
    ensures
        r@ == updatefile_command_view(),
{
    store_command(
        "update",
        "cli update [addr] [file]",
        CommandAction::Update,
        "cli update [file] [addr] --store-name(-n) [name]",
    )
}

pub open spec fn find_command_view() -> CommandView {
    cv(
        "find"@,
        "cli find"@,
        CommandAction::Find,
        seq![
            store_name_flag("cli find --store-name(-n) [name]"@),
            fv("addr"@, "cli find --addr(-a)"@, FlagKind::Bool, "a"@),
        ],
    )
}

pub fn find_command() -> (r: CommandSpec)
    ensures
        r@ == find_command_view(),
{
    let mut flags: Vec<FlagSpec> = Vec::new();
    flags.push(flag("store-name", "cli find --store-name(-n) [name]", FlagKind::Str, "n"));
    flags.push(flag("addr", "cli find --addr(-a)", FlagKind::Bool, "a"));
    assert(flag_views(flags@) =~= find_command_view().flags);
    CommandSpec {
        name: "find".to_owned(),
        usage: "cli find".to_owned(),
        action: CommandAction::Find,
        flags,
    }
}

pub open spec fn rollback_command_view() -> CommandView {
    cv(
        "rollback"@,
        "cli rollback"@,
        CommandAction::Rollback,
        seq![store_name_flag("cli rollback --store-name(-n) [name]"@)],
    )
}

pub fn rollback_command() -> (r: CommandSpec)
    ensures
        r@ == rollback_command_view(),
{
    store_command(
        "rollback",
        "cli rollback",
        CommandAction::Rollback,
        "cli rollback --store-name(-n) [name]",
    )
}

pub open spec fn rollforward_command_view() -> CommandView {
    cv(
        "rollforward"@,
        "cli rollforward"@,
        CommandAction::Rollforward,
        seq![store_name_flag("cli rollforward --store-name(-n) [name]"@)],
    )
}

pub fn rollforward_command() -> (r: CommandSpec)
    ensures
        r@ == rollforward_command_view(),
{
    store_command(
        "rollforward",
        "cli rollforward",
        CommandAction::Rollforward,
        "cli rollforward --store-name(-n) [name]",
    )
}

pub open spec fn wormhole_send_command_view() -> CommandView {
    cv(
        "wormhole-send"@,
        "cli wormhole-send"@,
        CommandAction::WormholeSend,
        seq![store_name_flag("cli wormhole-send --store-name(-n) [name]"@)],
    )
}

pub fn wormhole_send_command() -> (r: CommandSpec)
    ensures
        r@ == wormhole_send_command_view(),
{
    store_command(
        "wormhole-send",
        "cli wormhole-send",
        CommandAction::WormholeSend,
        "cli wormhole-send --store-name(-n) [name]",
    )
}

pub open spec fn wormhole_recv_command_view() -> CommandView {
    cv(
        "wormhole-recv"@,
        "cli wormhole-recv]"@,
        CommandAction::WormholeRecv,
        seq![store_name_flag("cli wormhole-recv --store-name(-n) [name]"@)],
    )
}

pub fn wormhole_recv_command() -> (r: CommandSpec)
    ensures
        r@ == wormhole_recv_command_view(),
{
    store_command(
        "wormhole-recv",
        "cli wormhole-recv]",
        CommandAction::WormholeRecv,
        "cli wormhole-recv --store-name(-n) [name]",
    )
}

/// The flags of the default action; `--age` is registered twice, with the
/// same usage line and alias both times.
pub open spec fn root_flag_views() -> Seq<FlagView> {
    seq![
        fv("bye"@, "cli [name] --bye(-b)"@, FlagKind::Bool, "b"@),
        fv("age"@, "cli [name] --age(-a)"@, FlagKind::Int, "a"@),
        fv("age"@, "cli [name] --age(-a)"@, FlagKind::Int, "a"@),
    ]
}

/// The subcommands, in the order they are registered.
pub open spec fn command_views() -> Seq<CommandView> {
    seq![
        calc_command_view(),
        create_command_view(),
        addfile_command_view(),
        updatefile_command_view(),
        find_command_view(),
        rollback_command_view(),
        rollforward_command_view(),
        wormhole_recv_command_view(),
        wormhole_send_command_view(),
    ]
}

pub open spec fn command_list_views(commands: Seq<CommandSpec>) -> Seq<CommandView> {
    commands.map_values(|c: CommandSpec| c@)
}

/// The whole command-line surface of the tool.
pub fn app_spec() -> (r: AppSpec)
    ensures
        r.usage@ == "cli [name]"@,
        r.action == CommandAction::Default,
        flag_views(r.flags@) == root_flag_views(),
        command_list_views(r.commands@) == command_views(),
{
    let mut flags: Vec<FlagSpec> = Vec::new();
    flags.push(flag("bye", "cli [name] --bye(-b)", FlagKind::Bool, "b"));
    flags.push(flag("age", "cli [name] --age(-a)", FlagKind::Int, "a"));
    flags.push(flag("age", "cli [name] --age(-a)", FlagKind::Int, "a"));
    assert(flag_views(flags@) =~= root_flag_views());
    let mut commands: Vec<CommandSpec> = Vec::new();
    commands.push(calc_command());
    commands.push(create_command());
    commands.push(addfile_command());
    commands.push(updatefile_command());
    commands.push(find_command());
    commands.push(rollback_command());
    commands.push(rollforward_command());
    commands.push(wormhole_recv_command());
    commands.push(wormhole_send_command());
    assert(command_list_views(commands@) =~= command_views());
    AppSpec { usage: "cli [name]".to_owned(), action: CommandAction::Default, flags, commands }
}

/// Every subcommand but `calc` takes the store's name by `--store-name`,
/// shortened `-n`, as its first flag.
pub proof fn store_subcommands_take_a_store_name()
    ensures
        forall|i: int|
            1 <= i < command_views().len() ==> {
                let flags = #[trigger] command_views()[i].flags;
                &&& flags.len() >= 1
                &&& flags[0].name == "store-name"@
                &&& flags[0].kind == FlagKind::Str
                &&& flags[0].alias == "n"@
            },
{
}

/// No two subcommands share a name, so a name picks at most one of them.
pub proof fn subcommand_names_are_distinct()
    ensures
        forall|i: int, j: int|
            0 <= i < j < command_views().len() ==> #[trigger] command_views()[i].name
                != #[trigger] command_views()[j].name,
{
    reveal_strlit("calc");
    reveal_strlit("create");
    reveal_strlit("add");
    reveal_strlit("update");
    reveal_strlit("find");
    reveal_strlit("rollback");
    reveal_strlit("rollforward");
    reveal_strlit("wormhole-recv");
    reveal_strlit("wormhole-send");
    let v = command_views();
    assert forall|i: int, j: int| 0 <= i < j < v.len() implies v[i].name != v[j].name by {
        if v[i].name.len() == v[j].name.len() {
            if v[i].name[0] == v[j].name[0] {
                assert(v[i].name[6] != v[j].name[6] || v[i].name[5] != v[j].name[5]
                    || v[i].name[9] != v[j].name[9]);
            }
        }
    }
}

/// The store is always run with the name of the subcommand the user typed.
pub proof fn store_runs_are_named_after_their_subcommand(c: StoreCommand)
    ensures
        exists|i: int|
            0 <= i < command_views().len() && #[trigger] command_views()[i].name
                == store_command_name(c),
        forall|h: Seq<char>, st: Option<Seq<char>>, rest: Seq<Seq<char>>|
            #[trigger] docker_run(h, store_command_name(c), st, rest).args[6] == store_command_name(c),
        forall|h: Seq<char>, a: Seq<Seq<char>>, st: Option<Seq<char>>|
            #[trigger] create_run(h, a, st) matches Ok(v) ==> v.args[6] == command_views()[1].name,
        forall|h: Seq<char>, a: Seq<Seq<char>>, st: Option<Seq<char>>|
            #[trigger] add_run(h, a, st) matches Ok(v) ==> v.1.args[6] == command_views()[2].name,
        forall|h: Seq<char>, st: Option<Seq<char>>, rest: Seq<Seq<char>>|
            #[trigger] docker_run(h, "update"@, st, rest).args[6] == command_views()[3].name,
        forall|h: Seq<char>, st: Option<Seq<char>>, addr: bool|
            #[trigger] docker_run(h, "find"@, st, find_rest(addr)).args[6] == command_views()[4].name,
{
    let v = command_views();
    let i: int = match c {
        StoreCommand::Rollback => 5,
        StoreCommand::Rollforward => 6,
        StoreCommand::WormholeRecv => 7,
        StoreCommand::WormholeSend => 8,
    };
    assert(v[i].name == store_command_name(c));
}

/// Every subcommand runs an action of its own, and none runs the action of
/// the tool without a subcommand.
pub proof fn each_subcommand_runs_its_own_action()
    ensures
        forall|i: int, j: int|
            0 <= i < j < command_views().len() ==> #[trigger] command_views()[i].action
                != #[trigger] command_views()[j].action,
        forall|i: int|
            0 <= i < command_views().len() ==> #[trigger] command_views()[i].action
                != CommandAction::Default,
{
}

} // verus!
