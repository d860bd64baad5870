use rust_fpm::config::{Config, GlobalConfig, PoolConfig, ServerConfig};
use rust_fpm::pool_manager::{
    owner_id, php_ini, pid_text, run_as, set_socket_permissions, total_workers, SocketAction,
    SocketError, SocketEvent, SocketSetup,
};
use rust_fpm::privileges::Lookup;
use rust_fpm::serving::{ServeAction, ServeError, ServeEvent, ServeRun};

fn args(list: &[&str]) -> Vec<String> {
    list.iter().map(|arg| arg.to_string()).collect()
}

fn pool() -> PoolConfig {
    PoolConfig {
        name: "www".to_string(),
        listen: "/tmp/www.sock".to_string(),
        listen_owner: None,
        listen_group: None,
        listen_mode: None,
        user: None,
        group: None,
        pm_max_children: 4,
        php_ini: None,
    }
}

fn server(pools: Vec<PoolConfig>) -> ServerConfig {
    ServerConfig { global: GlobalConfig { pid: None }, pools }
}

#[test]
fn defaults() {
    let config = Config::default();
    assert_eq!(config.listen, "/var/run/php-fpm.sock");
    assert_eq!(config.php_ini_path, None);
    assert_eq!(config.max_children, 1);
}

#[test]
fn no_options_leave_defaults() {
    for list in [args(&[]), args(&["rust-fpm"]), args(&["rust-fpm", "serve", "--verbose"])] {
        let config = Config::from_args(&list);
        assert_eq!(config.listen, "/var/run/php-fpm.sock");
        assert_eq!(config.php_ini_path, None);
        assert_eq!(config.max_children, 1);
    }
}

#[test]
fn command_line_of_the_readme() {
    let config = Config::from_args(&args(&[
        "rust-fpm", "--listen", "/var/run/php-fpm.sock", "--workers", "4",
    ]));
    assert_eq!(config.listen, "/var/run/php-fpm.sock");
    assert_eq!(config.max_children, 4);
}

#[test]
fn all_options() {
    let config = Config::from_args(&args(&[
        "rust-fpm", "--listen", "/tmp/a.sock", "extra", "--php-ini", "/etc/php.ini", "--workers", "+8",
    ]));
    assert_eq!(config.listen, "/tmp/a.sock");
    assert_eq!(config.php_ini_path, Some("/etc/php.ini".to_string()));
    assert_eq!(config.max_children, 8);
}

#[test]
fn last_option_holds() {
    let config = Config::from_args(&args(&[
        "rust-fpm", "--listen", "/a", "--workers", "2", "--listen", "/b", "--workers", "3",
    ]));
    assert_eq!(config.listen, "/b");
    assert_eq!(config.max_children, 3);
}

#[test]
fn last_option_holds_behind_a_value_named_like_an_option() {
    let config =
        Config::from_args(&args(&["rust-fpm", "--listen", "--php-ini", "--workers", "4"]));
    assert_eq!(config.listen, "--php-ini");
    assert_eq!(config.php_ini_path, None);
    assert_eq!(config.max_children, 4);
}

#[test]
fn option_takes_whatever_follows() {
    let config = Config::from_args(&args(&["rust-fpm", "--listen", "--workers", "7"]));
    assert_eq!(config.listen, "--workers");
    assert_eq!(config.max_children, 1);
}

#[test]
fn option_without_value_is_passed_over() {
    let config = Config::from_args(&args(&["rust-fpm", "--workers", "5", "--listen"]));
    assert_eq!(config.listen, "/var/run/php-fpm.sock");
    assert_eq!(config.max_children, 5);
    let config = Config::from_args(&args(&["rust-fpm", "extra", "--workers"]));
    assert_eq!(config.listen, "/var/run/php-fpm.sock");
    assert_eq!(config.max_children, 1);
    let config = Config::from_args(&args(&["--listen", "/first/is/the/program"]));
    assert_eq!(config.listen, "/var/run/php-fpm.sock");
}

#[test]
fn workers_that_are_no_number() {
    for value in ["", "many", "-3", "1.5", "99999999999999999999999999"] {
        let config = Config::from_args(&args(&["rust-fpm", "--workers", "6", "--workers", value]));
        assert_eq!(config.max_children, 1);
    }
    let config = Config::from_args(&args(&["rust-fpm", "--workers", "0"]));
    assert_eq!(config.max_children, 0);
}

#[test]
fn one_pool_from_the_command_line() {
    let config = Config::from_args(&args(&["rust-fpm", "--listen", "/x", "--php-ini", "/y", "--workers", "3"]));
    let server = ServerConfig::single_pool(config);
    assert!(server.global.pid.is_none());
    assert_eq!(server.pools.len(), 1);
    assert_eq!(server.pools[0].name, "www");
    assert_eq!(server.pools[0].listen, "/x");
    assert_eq!(server.pools[0].pm_max_children, 3);
    assert_eq!(php_ini(&server), Some("/y".to_string()));
    assert_eq!(total_workers(&server.pools), Some(3));
}

#[test]
fn workers_of_all_pools() {
    assert_eq!(total_workers(&Vec::new()), Some(0));
    let mut small = pool();
    small.pm_max_children = 3;
    assert_eq!(total_workers(&vec![pool(), small, pool()]), Some(11));
    let mut huge = pool();
    huge.pm_max_children = usize::MAX;
    assert_eq!(total_workers(&vec![huge]), Some(usize::MAX));
    let mut huge = pool();
    huge.pm_max_children = usize::MAX;
    assert_eq!(total_workers(&vec![huge, pool()]), None);
}

#[test]
fn ini_of_the_first_pool() {
    let mut second = pool();
    second.php_ini = Some("/second".to_string());
    assert_eq!(php_ini(&server(vec![pool(), second])), None);
    let mut first = pool();
    first.php_ini = Some("/first".to_string());
    assert_eq!(php_ini(&server(vec![first, pool()])), Some("/first".to_string()));
    assert_eq!(php_ini(&server(Vec::new())), None);
}

#[test]
fn identity_of_the_first_pool() {
    assert!(run_as(&server(Vec::new())).is_none());
    assert!(run_as(&server(vec![pool()])).is_none());
    let mut first = pool();
    first.user = Some("www-data".to_string());
    let id = run_as(&server(vec![first])).unwrap();
    assert_eq!(id.user, "www-data");
    assert_eq!(id.group, "www-data");
    let mut first = pool();
    first.user = Some("www-data".to_string());
    first.group = Some("web".to_string());
    let id = run_as(&server(vec![first])).unwrap();
    assert_eq!(id.group, "web");
    let mut first = pool();
    first.group = Some("web".to_string());
    assert!(run_as(&server(vec![first])).is_none());
}

#[test]
fn pid_in_text() {
    assert_eq!(pid_text(1), "1");
    assert_eq!(pid_text(4294967295), "4294967295");
}

#[test]
fn socket_permissions() {
    let permissions = set_socket_permissions(&pool());
    assert!(permissions.owner.is_none());
    assert_eq!(permissions.mode, 0o666);

    let mut owned = pool();
    owned.listen_owner = Some("nginx".to_string());
    owned.listen_mode = Some("0600".to_string());
    let permissions = set_socket_permissions(&owned);
    let change = permissions.owner.unwrap();
    assert_eq!(change.user, Some("nginx".to_string()));
    assert_eq!(change.group, None);
    assert_eq!(permissions.mode, 0o600);

    let mut grouped = pool();
    grouped.listen_group = Some("web".to_string());
    grouped.listen_mode = Some("rw".to_string());
    let permissions = set_socket_permissions(&grouped);
    let change = permissions.owner.unwrap();
    assert_eq!(change.user, None);
    assert_eq!(change.group, Some("web".to_string()));
    assert_eq!(permissions.mode, 0o660);
}

fn socket_actions(
    pool: &PoolConfig,
    events: &[SocketEvent],
) -> Option<(SocketSetup, Vec<SocketAction>)> {
    let permissions = set_socket_permissions(pool);
    let mut state = SocketSetup::New;
    let mut actions: Vec<SocketAction> = Vec::new();
    for event in events {
        let (next, action) = state.step(*event, &permissions)?;
        state = next;
        actions.push(action);
    }
    Some((state, actions))
}

#[test]
fn ids_that_were_looked_up() {
    assert_eq!(owner_id(Lookup::Found { id: 33 }), Some(33));
    assert_eq!(owner_id(Lookup::Missing), None);
    assert_eq!(owner_id(Lookup::Failed), None);
}

#[test]
fn socket_without_an_owner() {
    let (state, actions) =
        socket_actions(&pool(), &[SocketEvent::Begin, SocketEvent::ModeSet { success: true }])
            .unwrap();
    assert_eq!(state, SocketSetup::Done);
    assert_eq!(actions, vec![SocketAction::SetMode { mode: 0o666 }, SocketAction::Succeed]);
    let (state, _) =
        socket_actions(&pool(), &[SocketEvent::Begin, SocketEvent::ModeSet { success: false }])
            .unwrap();
    assert_eq!(state, SocketSetup::Failed { error: SocketError::Mode });
    assert_eq!(SocketError::Mode.context("/run/a.sock"), None);
}

#[test]
fn socket_with_user_and_group() {
    let mut owned = pool();
    owned.listen_owner = Some("nobody-known".to_string());
    owned.listen_group = Some("web".to_string());
    owned.listen_mode = Some("0640".to_string());
    let (state, actions) = socket_actions(
        &owned,
        &[
            SocketEvent::Begin,
            SocketEvent::User { lookup: Lookup::Missing },
            SocketEvent::Group { lookup: Lookup::Found { id: 8 } },
            SocketEvent::OwnerChanged { success: true },
            SocketEvent::ModeSet { success: true },
        ],
    )
    .unwrap();
    assert_eq!(state, SocketSetup::Done);
    assert_eq!(
        actions,
        vec![
            SocketAction::FindUser,
            SocketAction::FindGroup,
            SocketAction::ChangeOwner { uid: None, gid: Some(8) },
            SocketAction::SetMode { mode: 0o640 },
            SocketAction::Succeed,
        ]
    );
}

#[test]
fn failed_chown_leaves_mode() {
    let mut owned = pool();
    owned.listen_owner = Some("nginx".to_string());
    let (state, actions) = socket_actions(
        &owned,
        &[
            SocketEvent::Begin,
            SocketEvent::User { lookup: Lookup::Found { id: 33 } },
            SocketEvent::OwnerChanged { success: false },
        ],
    )
    .unwrap();
    assert_eq!(state, SocketSetup::Failed { error: SocketError::Chown });
    assert_eq!(
        actions,
        vec![
            SocketAction::FindUser,
            SocketAction::ChangeOwner { uid: Some(33), gid: None },
            SocketAction::Fail { error: SocketError::Chown },
        ]
    );
    assert_eq!(
        SocketError::Chown.context("/run/a.sock"),
        Some("Failed to chown socket /run/a.sock".to_string())
    );
    let mut grouped = pool();
    grouped.listen_group = Some("web".to_string());
    let (_, actions) = socket_actions(
        &grouped,
        &[SocketEvent::Begin, SocketEvent::Group { lookup: Lookup::Failed }],
    )
    .unwrap();
    assert_eq!(actions[1], SocketAction::ChangeOwner { uid: None, gid: None });
}

fn serve_actions(
    config: &ServerConfig,
    events: &[ServeEvent],
) -> Option<(ServeRun, Vec<ServeAction>)> {
    let mut state = ServeRun::New;
    let mut actions: Vec<ServeAction> = Vec::new();
    for event in events {
        let (next, action) = state.step(*event, config)?;
        state = next;
        actions.push(action);
    }
    Some((state, actions))
}

fn server_with_pid_and_user() -> ServerConfig {
    let mut first = pool();
    first.user = Some("www-data".to_string());
    let mut config = server(vec![first, pool()]);
    config.global.pid = Some("/run/rust-fpm.pid".to_string());
    config
}

#[test]
fn serving_keeps_order() {
    let (state, actions) = serve_actions(
        &server_with_pid_and_user(),
        &[
            ServeEvent::Begin,
            ServeEvent::PidWritten { success: true },
            ServeEvent::RootDropped { success: true },
            ServeEvent::AcceptStarted,
            ServeEvent::AcceptStarted,
            ServeEvent::SignalAwaited { success: true },
            ServeEvent::PidRemoved { success: false },
        ],
    )
    .unwrap();
    assert_eq!(state, ServeRun::Stopped);
    assert_eq!(
        actions,
        vec![
            ServeAction::WritePid,
            ServeAction::DropRoot,
            ServeAction::StartAccepting { pool: 0 },
            ServeAction::StartAccepting { pool: 1 },
            ServeAction::WaitForSignal,
            ServeAction::RemovePid,
            ServeAction::Stop,
        ]
    );
}

#[test]
fn serving_without_pid_file_and_user() {
    let (state, actions) = serve_actions(
        &server(vec![pool()]),
        &[
            ServeEvent::Begin,
            ServeEvent::AcceptStarted,
            ServeEvent::SignalAwaited { success: true },
        ],
    )
    .unwrap();
    assert_eq!(state, ServeRun::Stopped);
    assert_eq!(
        actions,
        vec![
            ServeAction::StartAccepting { pool: 0 },
            ServeAction::WaitForSignal,
            ServeAction::Stop,
        ]
    );
    assert_eq!(
        ServeRun::New.step(ServeEvent::Begin, &server(Vec::new())),
        Some((ServeRun::Waiting, ServeAction::WaitForSignal))
    );
}

#[test]
fn failed_steps_end_the_server() {
    let config = server_with_pid_and_user();
    let begin = ServeEvent::Begin;
    let written = ServeEvent::PidWritten { success: true };
    let dropped = ServeEvent::RootDropped { success: true };

    let (state, actions) =
        serve_actions(&config, &[begin, ServeEvent::PidWritten { success: false }]).unwrap();
    assert_eq!(state, ServeRun::Failed { error: ServeError::PidFile });
    let fail = ServeAction::Fail { error: ServeError::PidFile };
    assert_eq!(actions, vec![ServeAction::WritePid, fail]);

    let (state, actions) =
        serve_actions(&config, &[begin, written, ServeEvent::RootDropped { success: false }])
            .unwrap();
    assert_eq!(state, ServeRun::Failed { error: ServeError::Privileges });
    let fail = ServeAction::Fail { error: ServeError::Privileges };
    assert_eq!(actions, vec![ServeAction::WritePid, ServeAction::DropRoot, fail]);

    let (state, actions) = serve_actions(
        &config,
        &[
            begin,
            written,
            dropped,
            ServeEvent::AcceptStarted,
            ServeEvent::AcceptStarted,
            ServeEvent::SignalAwaited { success: false },
        ],
    )
    .unwrap();
    assert_eq!(state, ServeRun::Failed { error: ServeError::Signal });
    assert!(!actions.contains(&ServeAction::RemovePid));

    assert_eq!(
        ServeError::PidFile.context("/run/x.pid"),
        Some("Failed to write PID file: /run/x.pid".to_string())
    );
    assert_eq!(ServeError::Privileges.context("/run/x.pid"), None);
    assert_eq!(ServeError::Signal.context("/run/x.pid"), None);
    assert_eq!(ServeRun::New.step(ServeEvent::AcceptStarted, &config), None);
}

#[test]
fn leading_zeros_of_a_mode() {
    for (text, mode) in [("666", 0o666), ("0666", 0o666), ("000640", 0o640), ("0000", 0o660), ("", 0o660)] {
        let mut with_mode = pool();
        with_mode.listen_mode = Some(text.to_string());
        assert_eq!(set_socket_permissions(&with_mode).mode, mode);
    }
}
