use imt_cli::commands::{
    app_spec, calc_command, find_command, updatefile_command, wormhole_recv_command,
    wormhole_send_command, CommandAction, FlagKind,
};

#[test]
fn app_registers_all_subcommands_in_order() {
    let a = app_spec();
    assert_eq!(a.usage, "cli [name]");
    let names: Vec<&str> = a.commands.iter().map(|c| c.name.as_str()).collect();
    assert_eq!(
        names,
        vec![
            "calc", "create", "add", "update", "find", "rollback", "rollforward",
            "wormhole-recv", "wormhole-send"
        ]
    );
    let flags: Vec<(&str, &str)> = a.flags.iter().map(|f| (f.name.as_str(), f.alias.as_str())).collect();
    assert_eq!(flags, vec![("bye", "b"), ("age", "a"), ("age", "a")]);
    assert_eq!(a.flags[0].kind, FlagKind::Bool);
    assert_eq!(a.flags[1].kind, FlagKind::Int);
    for c in a.commands.iter().skip(1) {
        assert_eq!(c.flags[0].name, "store-name");
        assert_eq!(c.flags[0].alias, "n");
        assert_eq!(c.flags[0].kind, FlagKind::Str);
    }
}

#[test]
fn calc_takes_an_operator() {
    let c = calc_command();
    assert_eq!(c.usage, "cli calc [nums...]");
    assert_eq!(c.flags.len(), 1);
    assert_eq!(c.flags[0].name, "operator");
    assert_eq!(c.flags[0].alias, "op");
    assert_eq!(c.flags[0].usage, "cli calc [nums...] --operator(-op) [add | sub]");
}

#[test]
fn find_takes_store_name_and_addr() {
    let c = find_command();
    assert_eq!(c.flags.len(), 2);
    assert_eq!(c.flags[1].name, "addr");
    assert_eq!(c.flags[1].kind, FlagKind::Bool);
    assert_eq!(updatefile_command().flags[0].usage, "cli update [file] [addr] --store-name(-n) [name]");
}

#[test]
fn wormhole_usage_lines() {
    assert_eq!(wormhole_recv_command().usage, "cli wormhole-recv]");
    assert_eq!(wormhole_send_command().usage, "cli wormhole-send");
    assert_eq!(wormhole_recv_command().flags[0].usage, "cli wormhole-recv --store-name(-n) [name]");
}

#[test]
fn each_command_runs_its_own_action() {
    let a = app_spec();
    assert_eq!(a.action, CommandAction::Default);
    let actions: Vec<CommandAction> = a.commands.iter().map(|c| c.action).collect();
    assert_eq!(
        actions,
        vec![
            CommandAction::Calc,
            CommandAction::Create,
            CommandAction::Add,
            CommandAction::Update,
            CommandAction::Find,
            CommandAction::Rollback,
            CommandAction::Rollforward,
            CommandAction::WormholeRecv,
            CommandAction::WormholeSend,
        ]
    );
    assert_eq!(wormhole_recv_command().action, CommandAction::WormholeRecv);
    assert_eq!(find_command().action, CommandAction::Find);
    assert_eq!(calc_command().action, CommandAction::Calc);
}
