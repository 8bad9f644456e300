//! The `docker` runs that each store subcommand performs: every one is
//! `sudo docker run -it -v <home>/immutag:/root/immutag immutag:0.0.11`
//! followed by the subcommand, an optional `--store-name <name>`, and the
//! subcommand's own arguments.

use vstd::prelude::*;
use crate::text::{texts, opt_text, push_text, push_texts};

verus! {

/// A program and the arguments to start it with.
pub struct Invocation {
    pub program: String,
    pub args: Vec<String>,
}

pub struct InvocationView {
    pub program: Seq<char>,
    pub args: Seq<Seq<char>>,
}

impl View for Invocation {
    type V = InvocationView;

    open spec fn view(&self) -> InvocationView {
        InvocationView { program: self.program@, args: texts(self.args@) }
    }
}

/// Why a subcommand cannot start from the arguments it was given.
#[derive(Clone, Copy, Debug, PartialEq, Eq, Structural)]
pub enum ActionError {
    /// A positional argument that the subcommand needs is absent.
    MissingArgument,
    /// The file argument is absent or empty.
    NoFileGiven,
}

/// The container image that holds the store tool.
pub open spec fn store_image() -> Seq<char> {
    "immutag:0.0.11"@
}

/// The volume mount that shares `<home>/immutag` with the container.
pub open spec fn mount_text(home: Seq<char>) -> Seq<char> {
    home + "/immutag:/root/immutag"@
}

pub open spec fn store_name_args(store: Option<Seq<char>>) -> Seq<Seq<char>> {
    match store {
        Some(n) => seq!["--store-name"@, n],
        None => Seq::empty(),
    }
}

/// `sudo docker run -it -v <mount> <image> <sub> [--store-name <n>] <rest..>`.
pub open spec fn docker_run(
    home: Seq<char>,
    sub: Seq<char>,
    store: Option<Seq<char>>,
    rest: Seq<Seq<char>>,
) -> InvocationView {
    InvocationView {
        program: "sudo"@,
        args: seq!["docker"@, "run"@, "-it"@, "-v"@, mount_text(home), store_image(), sub]
            + store_name_args(store) + rest,
    }
}

/// The volume mount argument for the user's home directory.
pub fn docker_mount(home: &str) -> (r: String)
    ensures
        r@ == mount_text(home@),
{
    let mut r = home.to_owned();
    r.append("/immutag:/root/immutag");
    r
}

/// The `docker` run of one store subcommand.
pub fn docker_run_invocation(home: &str, sub: &str, store: Option<&str>, rest: &Vec<String>) -> (r:
    Invocation)
    ensures
        r@ == docker_run(home@, sub@, opt_text(store), texts(rest@)),
{
    let mut args: Vec<String> = Vec::new();
    push_text(&mut args, "docker");
    push_text(&mut args, "run");
    push_text(&mut args, "-it");
    push_text(&mut args, "-v");
    let mount = docker_mount(home);
    push_text(&mut args, mount.as_str());
    push_text(&mut args, "immutag:0.0.11");
    push_text(&mut args, sub);
    let ghost head = texts(args@);
    assert(head =~= seq!["docker"@, "run"@, "-it"@, "-v"@, mount_text(home@), store_image(), sub@]);
    match store {
        Some(n) => {
            push_text(&mut args, "--store-name");
            push_text(&mut args, n);
        },
        None => {},
    }
    assert(texts(args@) =~= head + store_name_args(opt_text(store)));
    push_texts(&mut args, rest);
    Invocation { program: "sudo".to_owned(), args }
}

/// `create <mnemonic>`: the mnemonic is the first argument.
pub open spec fn create_run(home: Seq<char>, args: Seq<Seq<char>>, store: Option<Seq<char>>) -> Result<
    InvocationView,
    ActionError,
> {
    if args.len() == 0 {
        Err(ActionError::MissingArgument)
    } else {
        Ok(docker_run(home, "create"@, store, seq![args[0]]))
    }
}

pub fn create_invocation(home: &str, args: &Vec<String>, store: Option<&str>) -> (r: Result<
    Invocation,
    ActionError,
>)
    ensures
        match create_run(home@, texts(args@), opt_text(store)) {
            Ok(v) => r matches Ok(i) && i@ == v,
            Err(e) => r == Err::<Invocation, ActionError>(e),
        },
{
    if args.len() == 0 {
        return Err(ActionError::MissingArgument);
    }
    let mut rest: Vec<String> = Vec::new();
    push_text(&mut rest, args[0].as_str());
    let r = docker_run_invocation(home, "create", store, &rest);
    assert(texts(rest@) =~= seq![texts(args@)[0]]);
    Ok(r)
}

/// A file to stage, and the run that adds it to the store.
pub struct AddPlan {
    pub file: String,
    pub invocation: Invocation,
}

/// `add <file> [tags..]`: the file is the first argument and must not be
/// empty; the run passes the file and then the tags, as given.
pub open spec fn add_run(home: Seq<char>, args: Seq<Seq<char>>, store: Option<Seq<char>>) -> Result<
    (Seq<char>, InvocationView),
    ActionError,
> {
    if args.len() == 0 || args[0].len() == 0 {
        Err(ActionError::NoFileGiven)
    } else {
        Ok((args[0], docker_run(home, "add"@, store, seq![args[0]] + args.drop_first())))
    }
}

pub fn add_plan(home: &str, args: &Vec<String>, store: Option<&str>) -> (r: Result<
    AddPlan,
    ActionError,
>)
    ensures
        match add_run(home@, texts(args@), opt_text(store)) {
            Ok(v) => r matches Ok(p) && p.file@ == v.0 && p.invocation@ == v.1,
            Err(e) => r matches Err(f) && f == e,
        },
{
    if args.len() == 0 {
        return Err(ActionError::NoFileGiven);
    }
    if args[0].as_str().unicode_len() == 0 {
        return Err(ActionError::NoFileGiven);
    }
    let invocation = docker_run_invocation(home, "add", store, args);
    assert(texts(args@) =~= seq![texts(args@)[0]] + texts(args@).drop_first());
    Ok(AddPlan { file: args[0].clone(), invocation })
}

/// `update <addr> <file>`: both arguments must be present and the file must
/// not be empty.
pub open spec fn update_args(args: Seq<Seq<char>>) -> Result<(Seq<char>, Seq<char>), ActionError> {
    if args.len() < 2 {
        Err(ActionError::MissingArgument)
    } else if args[1].len() == 0 {
        Err(ActionError::NoFileGiven)
    } else {
        Ok((args[0], args[1]))
    }
}

/// The address and the file of `update`.
pub fn update_arguments(args: &Vec<String>) -> (r: Result<(String, String), ActionError>)
    ensures
        match update_args(texts(args@)) {
            Ok(v) => r matches Ok(p) && p.0@ == v.0 && p.1@ == v.1,
            Err(e) => r matches Err(f) && f == e,
        },
{
    if args.len() < 2 {
        return Err(ActionError::MissingArgument);
    }
    if args[1].as_str().unicode_len() == 0 {
        return Err(ActionError::NoFileGiven);
    }
    Ok((args[0].clone(), args[1].clone()))
}

/// The run of `update`: the address, then the name of the staged file.
pub fn update_invocation(home: &str, store: Option<&str>, addr: &str, staged_name: &str) -> (r:
    Invocation)
    ensures
        r@ == docker_run(home@, "update"@, opt_text(store), seq![addr@, staged_name@]),
{
    let mut rest: Vec<String> = Vec::new();
    push_text(&mut rest, addr);
    push_text(&mut rest, staged_name);
    assert(texts(rest@) =~= seq![addr@, staged_name@]);
    docker_run_invocation(home, "update", store, &rest)
}

/// The run of `find`, and whether the found file is to be linked after it.
pub struct FindPlan {
    pub invocation: Invocation,
    pub follow_link: bool,
}

pub open spec fn find_rest(addr: bool) -> Seq<Seq<char>> {
    if addr {
        seq!["--addr"@]
    } else {
        Seq::empty()
    }
}

/// `find [--addr]`: with `--addr` the store prints an address and nothing
/// is linked; without it the found file is linked afterwards.
pub fn find_plan(home: &str, store: Option<&str>, addr: bool) -> (r: FindPlan)
    ensures
        r.invocation@ == docker_run(home@, "find"@, opt_text(store), find_rest(addr)),
        r.follow_link == !addr,
{
    let mut rest: Vec<String> = Vec::new();
    if addr {
        push_text(&mut rest, "--addr");
    }
    assert(texts(rest@) =~= find_rest(addr));
    FindPlan { invocation: docker_run_invocation(home, "find", store, &rest), follow_link: !addr }
}

/// The subcommands that take no argument but the store name.
#[derive(Clone, Copy, Debug, PartialEq, Eq, Structural)]
pub enum StoreCommand {
    Rollback,
    Rollforward,
    WormholeSend,
    WormholeRecv,
}

pub open spec fn store_command_name(c: StoreCommand) -> Seq<char> {
    match c {
        StoreCommand::Rollback => "rollback"@,
        StoreCommand::Rollforward => "rollforward"@,
        StoreCommand::WormholeSend => "wormhole-send"@,
        StoreCommand::WormholeRecv => "wormhole-recv"@,
    }
}

/// The run of `rollback`, `rollforward`, `wormhole-send` or `wormhole-recv`.
pub fn store_command_invocation(home: &str, command: StoreCommand, store: Option<&str>) -> (r:
    Invocation)
    ensures
        r@ == docker_run(home@, store_command_name(command), opt_text(store), Seq::empty()),
{
    let sub = match command {
        StoreCommand::Rollback => "rollback",
        StoreCommand::Rollforward => "rollforward",
        StoreCommand::WormholeSend => "wormhole-send",
        StoreCommand::WormholeRecv => "wormhole-recv",
    };
    let rest: Vec<String> = Vec::new();
    assert(texts(rest@) =~= Seq::<Seq<char>>::empty());
    docker_run_invocation(home, sub, store, &rest)
}

/// Every run starts `sudo docker run -it -v <home>/immutag:/root/immutag
/// immutag:0.0.11 <sub>`. A given store name follows the subcommand at once,
/// as `--store-name <n>`, and the subcommand's own arguments come after it,
/// unchanged and in order; without a store name they follow the subcommand
/// directly.
pub proof fn store_name_and_arguments_follow_the_subcommand(
    home: Seq<char>,
    sub: Seq<char>,
    store: Option<Seq<char>>,
    rest: Seq<Seq<char>>,
)
    ensures
        docker_run(home, sub, store, rest).program == "sudo"@,
        docker_run(home, sub, store, rest).args.len() >= 7,
        docker_run(home, sub, store, rest).args[0] == "docker"@,
        docker_run(home, sub, store, rest).args[1] == "run"@,
        docker_run(home, sub, store, rest).args[2] == "-it"@,
        docker_run(home, sub, store, rest).args[3] == "-v"@,
        docker_run(home, sub, store, rest).args[4] == home + "/immutag:/root/immutag"@,
        docker_run(home, sub, store, rest).args[5] == "immutag:0.0.11"@,
        docker_run(home, sub, store, rest).args[6] == sub,
        store matches Some(n) ==> {
            let a = docker_run(home, sub, store, rest).args;
            &&& a.len() == 9 + rest.len()
            &&& a[7] == "--store-name"@
            &&& a[8] == n
            &&& a.subrange(9, a.len() as int) == rest
        },
        store is None ==> {
            let a = docker_run(home, sub, store, rest).args;
            &&& a.len() == 7 + rest.len()
            &&& a.subrange(7, a.len() as int) == rest
        },
{
    let a = docker_run(home, sub, store, rest).args;
    match store {
        Some(n) => {
            assert(a.subrange(9, a.len() as int) =~= rest);
        },
        None => {
            assert(a.subrange(7, a.len() as int) =~= rest);
        },
    }
}

/// `create` fails only when no argument is given; otherwise its run ends
/// with the first argument, the mnemonic, right after the subcommand and
/// any store name.
pub proof fn create_runs_with_the_mnemonic(
    home: Seq<char>,
    args: Seq<Seq<char>>,
    store: Option<Seq<char>>,
)
    ensures
        args.len() == 0 ==> create_run(home, args, store) == Err::<InvocationView, ActionError>(
            ActionError::MissingArgument,
        ),
        args.len() > 0 ==> (create_run(home, args, store) matches Ok(v) && v.args[6] == "create"@
            && v.args.len() == (if store is Some { 10int } else { 8int }) && v.args.last()
            == args[0]),
{
    if args.len() > 0 {
        store_name_and_arguments_follow_the_subcommand(home, "create"@, store, seq![args[0]]);
    }
}

/// `add` fails only when there is no file or the file is empty; otherwise
/// it stages the first argument and its run ends with every argument given,
/// the file and then each tag, in order, with or without a store name.
pub proof fn add_passes_the_file_and_every_tag(
    home: Seq<char>,
    args: Seq<Seq<char>>,
    store: Option<Seq<char>>,
)
    ensures
        (args.len() == 0 || args[0].len() == 0) ==> add_run(home, args, store) == Err::<
            (Seq<char>, InvocationView),
            ActionError,
        >(ActionError::NoFileGiven),
        (args.len() > 0 && args[0].len() > 0) ==> (add_run(home, args, store) matches Ok(v)
            && v.0 == args[0] && v.1.args[6] == "add"@ && v.1.args.len() == 7 + args.len() + (
        if store is Some {
            2int
        } else {
            0int
        }) && v.1.args.subrange(v.1.args.len() - args.len(), v.1.args.len() as int) == args),
{
    if args.len() > 0 && args[0].len() > 0 {
        let rest = seq![args[0]] + args.drop_first();
        assert(rest =~= args);
        store_name_and_arguments_follow_the_subcommand(home, "add"@, store, rest);
        let a = docker_run(home, "add"@, store, rest).args;
        assert(a.subrange(a.len() - args.len(), a.len() as int) =~= args);
    }
}

/// `update` needs two arguments and a non-empty file: with them it gives
/// the address (first) and the file (second); without two arguments it is
/// missing one; with an empty file there is no file.
pub proof fn update_takes_address_then_file(args: Seq<Seq<char>>)
    ensures
        args.len() < 2 ==> update_args(args) == Err::<(Seq<char>, Seq<char>), ActionError>(
            ActionError::MissingArgument,
        ),
        args.len() >= 2 && args[1].len() == 0 ==> update_args(args) == Err::<
            (Seq<char>, Seq<char>),
            ActionError,
        >(ActionError::NoFileGiven),
        args.len() >= 2 && args[1].len() > 0 ==> update_args(args) == Ok::<
            (Seq<char>, Seq<char>),
            ActionError,
        >((args[0], args[1])),
{
}

/// `find` passes `--addr` as its last argument exactly when asked to, and
/// nothing else of its own.
pub proof fn find_passes_addr_only_when_asked(addr: bool)
    ensures
        addr ==> find_rest(addr) == seq!["--addr"@],
        !addr ==> find_rest(addr).len() == 0,
{
}

} // verus!
