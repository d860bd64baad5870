//! Settings: the command line, and the pools that the server runs.

use crate::number::{
    decimal, decimal_reads_back, digits_value, other_texts_are_no_numbers, parse_usize,
    rows_of_digits_are_numbers, unsigned_number, within,
};
use crate::text::{optional_text, text_eq};
use vstd::prelude::*;

verus! {

/// Settings of a server with one pool, read from the command line.
pub struct Config {
    /// Path of the Unix socket to listen on
    pub listen: String,
    /// Path of a `php.ini` to use in place of PHP's own choice
    pub php_ini_path: Option<String>,
    /// How many requests PHP may run at a time
    pub max_children: usize,
}

/// The settings as plain values.
#[verifier::ext_equal]
pub struct Settings {
    pub listen: Seq<char>,
    pub php_ini_path: Option<Seq<char>>,
    pub max_children: usize,
}

/// What holds where the command line says nothing.
pub open spec fn default_settings() -> Settings {
    Settings { listen: "/var/run/php-fpm.sock"@, php_ini_path: None, max_children: 1 }
}

/// Whether an argument announces a value in the argument behind it.
pub open spec fn is_option(arg: Seq<char>) -> bool {
    arg == "--listen"@ || arg == "--php-ini"@ || arg == "--workers"@
}

/// The number of workers that a value asks for: 1 where it is no number.
pub open spec fn workers_value(value: Seq<char>) -> usize {
    match within(unsigned_number(value, 10), 0, usize::MAX as int) {
        Some(n) => n as usize,
        None => 1,
    }
}

/// The settings once `option` has been given `value`.
pub open spec fn with_option(settings: Settings, option: Seq<char>, value: Seq<char>) -> Settings {
    if option == "--listen"@ {
        Settings { listen: value, ..settings }
    } else if option == "--php-ini"@ {
        Settings { php_ini_path: Some(value), ..settings }
    } else {
        Settings { max_children: workers_value(value), ..settings }
    }
}

/// The settings once the arguments from position `i` on have been read.
///
/// An option takes the argument behind it, whatever that is. An option in last place and every
/// other argument are passed over.
pub open spec fn settings_from(args: Seq<Seq<char>>, i: int, settings: Settings) -> Settings
    decreases args.len() - i,
{
    if i < 0 || i >= args.len() {
        settings
    } else if is_option(args[i]) && i + 1 < args.len() {
        settings_from(args, i + 2, with_option(settings, args[i], args[i + 1]))
    } else {
        settings_from(args, i + 1, settings)
    }
}

/// The texts of the arguments.
pub open spec fn args_view(args: Seq<String>) -> Seq<Seq<char>> {
    args.map_values(|arg: String| arg@)
}

impl View for Config {
    type V = Settings;

    open spec fn view(&self) -> Settings {
        Settings {
            listen: self.listen@,
            php_ini_path: optional_text(self.php_ini_path),
            max_children: self.max_children,
        }
    }
}

/// The three options have different names.
proof fn options_differ()
    ensures
        "--listen"@ != "--php-ini"@,
        "--listen"@ != "--workers"@,
        "--php-ini"@ != "--workers"@,
{
    reveal_strlit("--listen");
    reveal_strlit("--php-ini");
    reveal_strlit("--workers");
    assert("--listen"@[2] != "--php-ini"@[2]);
    assert("--listen"@[2] != "--workers"@[2]);
    assert("--php-ini"@[2] != "--workers"@[2]);
}

impl Default for Config {
    fn default() -> (config: Config)
        ensures
            config@ == default_settings(),
            config.listen@ == "/var/run/php-fpm.sock"@,
            config.php_ini_path is None,
            config.max_children == 1,
    {
        Config {
            listen: "/var/run/php-fpm.sock".to_owned(),
            php_ini_path: None,
            max_children: 1,
        }
    }
}

impl Config {
    /// Reads the settings from the arguments of the process, the program's name first.
    pub fn from_args(args: &Vec<String>) -> (config: Config)
        ensures
            config@ == settings_from(args_view(args@), 1, default_settings()),
    {
        proof {
            options_differ();
        }
        let ghost texts = args_view(args@);
        let mut config = Config::default();
        let mut i: usize = 1;
        while i < args.len()
            invariant
                1 <= i,
                texts == args_view(args@),
                settings_from(texts, i as int, config@) == settings_from(
                    texts,
                    1,
                    default_settings(),
                ),
                "--listen"@ != "--php-ini"@,
                "--listen"@ != "--workers"@,
                "--php-ini"@ != "--workers"@,
            decreases args@.len() - i,
        {
            let arg = args[i].as_str();
            assert(arg@ == texts[i as int]);
            if i + 1 < args.len() {
                let value = &args[i + 1];
                assert(value@ == texts[i + 1]);
                if text_eq(arg, "--listen") {
                    config.listen = value.clone();
                    i = i + 1;
                } else if text_eq(arg, "--php-ini") {
                    config.php_ini_path = Some(value.clone());
                    i = i + 1;
                } else if text_eq(arg, "--workers") {
                    config.max_children = match parse_usize(value.as_str()) {
                        Some(n) => n,
                        None => 1,
                    };
                    i = i + 1;
                }
            }
            i = i + 1;
        }
        config
    }
}

/// Whether reading the arguments from position `i` on comes to their end with no option that still
/// waits for its value.
pub open spec fn all_options_have_values(args: Seq<Seq<char>>, i: int) -> bool
    decreases args.len() - i,
{
    if i < 0 || i >= args.len() {
        true
    } else if is_option(args[i]) {
        i + 1 < args.len() && all_options_have_values(args, i + 2)
    } else {
        all_options_have_values(args, i + 1)
    }
}

/// Where no option still waits for its value, reading goes on with what is added behind.
proof fn settings_split(args: Seq<Seq<char>>, i: int, settings: Settings, more: Seq<Seq<char>>)
    requires
        0 <= i <= args.len(),
        all_options_have_values(args, i),
    ensures
        settings_from(args + more, i, settings) == settings_from(
            args + more,
            args.len() as int,
            settings_from(args, i, settings),
        ),
    decreases args.len() - i,
{
    let all = args + more;
    if i < args.len() {
        assert(all[i] == args[i]);
        if is_option(args[i]) && i + 1 < args.len() {
            assert(all[i + 1] == args[i + 1]);
            settings_split(args, i + 2, with_option(settings, args[i], args[i + 1]), more);
        } else {
            settings_split(args, i + 1, settings, more);
        }
    }
}

/// An option and its value at the end of the command line count: the last mention of an option is
/// the one that holds, and the other settings stay as they were.
///
/// In front of them may stand anything but an option that still waits for its value, which would
/// take the added option for that value.
pub proof fn last_option_holds(args: Seq<Seq<char>>, option: Seq<char>, value: Seq<char>)
    requires
        args.len() >= 1,
        all_options_have_values(args, 1),
        is_option(option),
    ensures
        settings_from(args + seq![option, value], 1, default_settings()) == with_option(
            settings_from(args, 1, default_settings()),
            option,
            value,
        ),
{
    let more = seq![option, value];
    let all = args + more;
    settings_split(args, 1, default_settings(), more);
    let n = args.len() as int;
    assert(all[n] == option);
    assert(all[n + 1] == value);
    let middle = settings_from(args, 1, default_settings());
    assert(settings_from(all, n + 2, with_option(middle, option, value)) == with_option(
        middle,
        option,
        value,
    ));
}

/// A command line without options leaves the settings as they were; an option in last place, which
/// has no value, counts for nothing.
pub proof fn no_option_leaves_defaults(args: Seq<Seq<char>>, i: int, settings: Settings)
    requires
        0 <= i,
        forall|j: int| i <= j < args.len() - 1 ==> !is_option(#[trigger] args[j]),
    ensures
        settings_from(args, i, settings) == settings,
    decreases args.len() - i,
{
    if i < args.len() {
        no_option_leaves_defaults(args, i + 1, settings);
    }
}

/// Settings of one pool.
pub struct PoolConfig {
    pub name: String,
    /// Path of the Unix socket to listen on
    pub listen: String,
    /// User and group that own the socket
    pub listen_owner: Option<String>,
    pub listen_group: Option<String>,
    /// Permissions of the socket, in octal
    pub listen_mode: Option<String>,
    /// User and group to run as
    pub user: Option<String>,
    pub group: Option<String>,
    /// How many requests PHP may run at a time
    pub pm_max_children: usize,
    /// Path of a `php.ini` to use in place of PHP's own choice
    pub php_ini: Option<String>,
}

/// Settings that hold for all pools.
pub struct GlobalConfig {
    /// Path of the file to which the process id is written
    pub pid: Option<String>,
}

/// Settings of a server with any number of pools.
pub struct ServerConfig {
    pub global: GlobalConfig,
    pub pools: Vec<PoolConfig>,
}

impl ServerConfig {
    /// A server with the one pool that the command line asks for.
    pub fn single_pool(config: Config) -> (server: ServerConfig)
        ensures
            server.global.pid is None,
            server.pools@.len() == 1,
            server.pools@[0].name@ == "www"@,
            server.pools@[0].listen == config.listen,
            server.pools@[0].listen_owner is None,
            server.pools@[0].listen_group is None,
            server.pools@[0].listen_mode is None,
            server.pools@[0].user is None,
            server.pools@[0].group is None,
            server.pools@[0].pm_max_children == config.max_children,
            server.pools@[0].php_ini == config.php_ini_path,
    {
        let mut pools: Vec<PoolConfig> = Vec::new();
        pools.push(
            PoolConfig {
                name: "www".to_owned(),
                listen: config.listen,
                listen_owner: None,
                listen_group: None,
                listen_mode: None,
                user: None,
                group: None,
                pm_max_children: config.max_children,
                php_ini: config.php_ini_path,
            },
        );
        ServerConfig { global: GlobalConfig { pid: None }, pools }
    }
}

/// The view of the settings is the settings, and the texts of the arguments are those of the
/// arguments, in order.
pub proof fn views_are_the_values(config: Config, args: Seq<String>)
    ensures
        config@.listen == config.listen@,
        config@.php_ini_path is None <==> config.php_ini_path is None,
        config.php_ini_path matches Some(path) ==> config@.php_ini_path == Some(path@),
        config@.max_children == config.max_children,
        args_view(args).len() == args.len(),
        forall|i: int| 0 <= i < args.len() ==> #[trigger] args_view(args)[i] == args[i]@,
{
}

/// A number of workers is taken as it is written, and what is no number or does not fit is 1.
pub proof fn workers_are_the_number(n: usize, value: Seq<char>, i: int, large: nat)
    ensures
        workers_value(decimal(n as nat)) == n,
        workers_value(Seq::empty()) == 1,
        0 <= i < value.len() && ((value[i] as int) < 48 || value[i] as int > 57) && (i > 0
            || value[i] != '+') ==> workers_value(value) == 1,
        large > usize::MAX ==> workers_value(decimal(large)) == 1,
{
    decimal_reads_back(n as nat);
    decimal_reads_back(large);
    other_texts_are_no_numbers(seq!['x'], 0, 10);
    if 0 <= i < value.len() && ((value[i] as int) < 48 || value[i] as int > 57) && (i > 0
        || value[i] != '+') {
        other_texts_are_no_numbers(value, i, 10);
    }
}

/// An option added behind a complete command line changes its own setting alone.
pub proof fn option_changes_its_own_setting(args: Seq<Seq<char>>, value: Seq<char>)
    requires
        args.len() >= 1,
        all_options_have_values(args, 1),
    ensures
        ({
            let before = settings_from(args, 1, default_settings());
            let listen = settings_from(args + seq!["--listen"@, value], 1, default_settings());
            let php_ini = settings_from(args + seq!["--php-ini"@, value], 1, default_settings());
            let workers = settings_from(args + seq!["--workers"@, value], 1, default_settings());
            &&& listen.listen == value
            &&& listen.php_ini_path == before.php_ini_path
            &&& listen.max_children == before.max_children
            &&& php_ini.listen == before.listen
            &&& php_ini.php_ini_path == Some(value)
            &&& php_ini.max_children == before.max_children
            &&& workers.listen == before.listen
            &&& workers.php_ini_path == before.php_ini_path
            &&& workers.max_children == workers_value(value)
        }),
{
    options_differ();
    last_option_holds(args, "--listen"@, value);
    last_option_holds(args, "--php-ini"@, value);
    last_option_holds(args, "--workers"@, value);
}

/// A command line that does not end in the name of an option is complete.
pub proof fn plain_end_is_complete(args: Seq<Seq<char>>, i: int)
    requires
        0 <= i,
        args.len() > 0 ==> args.last() != "--listen"@ && args.last() != "--php-ini"@ && args.last()
            != "--workers"@,
    ensures
        all_options_have_values(args, i),
    decreases args.len() - i,
{
    if i < args.len() {
        if is_option(args[i]) {
            assert(i + 1 < args.len());
            plain_end_is_complete(args, i + 2);
        } else {
            plain_end_is_complete(args, i + 1);
        }
    }
}

/// Whether `places` are those of the options that count, from position `i` on: each has a value
/// behind it, none is the value of another, and no other argument is an option, but for one in last
/// place.
spec fn places_from(args: Seq<Seq<char>>, i: int, places: Seq<int>) -> bool {
    &&& forall|k: int|
        0 <= k < places.len() ==> {
            &&& i <= #[trigger] places[k] < args.len() - 1
            &&& args[places[k]] == "--listen"@ || args[places[k]] == "--php-ini"@
                || args[places[k]] == "--workers"@
        }
    &&& forall|k: int, m: int|
        0 <= k < m < places.len() ==> #[trigger] places[k] + 2 <= #[trigger] places[m]
    &&& forall|j: int|
        i <= j < args.len() - 1 && (#[trigger] args[j] == "--listen"@ || args[j] == "--php-ini"@
            || args[j] == "--workers"@) ==> exists|k: int|
            0 <= k < places.len() && (#[trigger] places[k] == j || places[k] + 1 == j)
}

spec fn settings_at(args: Seq<Seq<char>>, places: Seq<int>, settings: Settings) -> Settings
    decreases places.len(),
{
    if places.len() == 0 {
        settings
    } else {
        settings_at(
            args,
            places.drop_first(),
            with_option(settings, args[places[0]], args[places[0] + 1]),
        )
    }
}

proof fn read_at_places(args: Seq<Seq<char>>, i: int, places: Seq<int>, settings: Settings)
    requires
        0 <= i,
        places_from(args, i, places),
    ensures
        settings_from(args, i, settings) == settings_at(args, places, settings),
    decreases args.len() - i,
{
    if i >= args.len() {
        if places.len() > 0 {
            assert(i <= places[0]);
        }
    } else if places.len() > 0 && places[0] == i {
        let rest = places.drop_first();
        assert(is_option(args[i]));
        assert(places_from(args, i + 2, rest)) by {
            assert forall|k: int| 0 <= k < rest.len() implies {
                &&& i + 2 <= #[trigger] rest[k] < args.len() - 1
                &&& args[rest[k]] == "--listen"@ || args[rest[k]] == "--php-ini"@ || args[rest[k]]
                    == "--workers"@
            } by {
                assert(rest[k] == places[k + 1]);
                assert(places[0] + 2 <= places[k + 1]);
            }
            assert forall|k: int, m: int| 0 <= k < m < rest.len() implies #[trigger] rest[k] + 2
                <= #[trigger] rest[m] by {
                assert(places[k + 1] + 2 <= places[m + 1]);
            }
            assert forall|j: int|
                i + 2 <= j < args.len() - 1 && (#[trigger] args[j] == "--listen"@ || args[j]
                    == "--php-ini"@ || args[j] == "--workers"@) implies exists|k: int|
                0 <= k < rest.len() && (#[trigger] rest[k] == j || rest[k] + 1 == j) by {
                let k = choose|k: int|
                    0 <= k < places.len() && (#[trigger] places[k] == j || places[k] + 1 == j);
                assert(k > 0);
                assert(rest[k - 1] == places[k]);
            }
        }
        read_at_places(args, i + 2, rest, with_option(settings, args[i], args[i + 1]));
    } else {
        if is_option(args[i]) && i + 1 < args.len() {
            let k = choose|k: int|
                0 <= k < places.len() && (#[trigger] places[k] == i || places[k] + 1 == i);
            if k > 0 {
                assert(places[0] + 2 <= places[k]);
            }
            assert(false);
        }
        assert(places_from(args, i + 1, places)) by {
            assert forall|k: int| 0 <= k < places.len() implies i + 1 <= #[trigger] places[k] by {
                if k > 0 {
                    assert(places[0] + 2 <= places[k]);
                }
            }
        }
        read_at_places(args, i + 1, places, settings);
    }
}

proof fn other_places_keep(args: Seq<Seq<char>>, places: Seq<int>, settings: Settings)
    ensures
        ({
            let read = settings_at(args, places, settings);
            &&& (forall|k: int| 0 <= k < places.len() ==> args[#[trigger] places[k]] != "--listen"@)
                ==> read.listen == settings.listen
            &&& (forall|k: int|
                0 <= k < places.len() ==> args[#[trigger] places[k]] != "--php-ini"@)
                ==> read.php_ini_path == settings.php_ini_path
            &&& (forall|k: int|
                0 <= k < places.len() ==> args[#[trigger] places[k]] == "--listen"@
                    || args[places[k]] == "--php-ini"@) ==> read.max_children
                == settings.max_children
        }),
    decreases places.len(),
{
    if places.len() > 0 {
        options_differ();
        let rest = places.drop_first();
        assert(forall|k: int| 0 <= k < rest.len() ==> #[trigger] rest[k] == places[k + 1]);
        let first = places[0];
        assert(args[first] == args[places[0]]);
        other_places_keep(
            args,
            rest,
            with_option(settings, args[places[0]], args[places[0] + 1]),
        );
    }
}

proof fn last_place_holds(args: Seq<Seq<char>>, places: Seq<int>, settings: Settings, k: int)
    requires
        0 <= k < places.len(),
        forall|m: int|
            0 <= m < places.len() ==> args[#[trigger] places[m]] == "--listen"@ || args[places[m]]
                == "--php-ini"@ || args[places[m]] == "--workers"@,
        forall|m: int| k < m < places.len() ==> args[#[trigger] places[m]] != args[places[k]],
    ensures
        ({
            let read = settings_at(args, places, settings);
            let value = args[places[k] + 1];
            &&& args[places[k]] == "--listen"@ ==> read.listen == value
            &&& args[places[k]] == "--php-ini"@ ==> read.php_ini_path == Some(value)
            &&& args[places[k]] == "--workers"@ ==> read.max_children == workers_value(value)
        }),
    decreases places.len(),
{
    options_differ();
    let rest = places.drop_first();
    let next = with_option(settings, args[places[0]], args[places[0] + 1]);
    assert(forall|m: int| 0 <= m < rest.len() ==> #[trigger] rest[m] == places[m + 1]);
    if k == 0 {
        other_places_keep(args, rest, next);
    } else {
        assert(rest[k - 1] == places[k]);
        last_place_holds(args, rest, next, k - 1);
    }
}

/// What each option of a command line sets, for any line whatever.
///
/// `places` are the places of the options that count: each has its value behind it, none is the
/// value of another, and no other argument is an option, but for one in last place. The last value
/// that came for an option is the setting, and without any it is the default.
pub proof fn last_values_are_the_settings(args: Seq<Seq<char>>, places: Seq<int>)
    requires
        forall|k: int|
            0 <= k < places.len() ==> {
                &&& 1 <= #[trigger] places[k] < args.len() - 1
                &&& args[places[k]] == "--listen"@ || args[places[k]] == "--php-ini"@
                    || args[places[k]] == "--workers"@
            },
        forall|k: int, m: int|
            0 <= k < m < places.len() ==> #[trigger] places[k] + 2 <= #[trigger] places[m],
        forall|j: int|
            1 <= j < args.len() - 1 && (#[trigger] args[j] == "--listen"@ || args[j] == "--php-ini"@
                || args[j] == "--workers"@) ==> exists|k: int|
                0 <= k < places.len() && (#[trigger] places[k] == j || places[k] + 1 == j),
    ensures
        ({
            let read = settings_from(args, 1, default_settings());
            &&& forall|k: int|
                0 <= k < places.len() && (forall|m: int|
                    k < m < places.len() ==> args[#[trigger] places[m]] != args[places[k]]) ==> {
                    &&& args[#[trigger] places[k]] == "--listen"@ ==> read.listen == args[places[k]
                        + 1]
                    &&& args[places[k]] == "--php-ini"@ ==> read.php_ini_path == Some(
                        args[places[k] + 1],
                    )
                    &&& args[places[k]] == "--workers"@ ==> read.max_children == workers_value(
                        args[places[k] + 1],
                    )
                }
            &&& (forall|k: int| 0 <= k < places.len() ==> args[#[trigger] places[k]] != "--listen"@)
                ==> read.listen == "/var/run/php-fpm.sock"@
            &&& (forall|k: int|
                0 <= k < places.len() ==> args[#[trigger] places[k]] != "--php-ini"@)
                ==> read.php_ini_path is None
            &&& (forall|k: int|
                0 <= k < places.len() ==> args[#[trigger] places[k]] != "--workers"@)
                ==> read.max_children == 1
        }),
{
    assert(places_from(args, 1, places));
    read_at_places(args, 1, places, default_settings());
    other_places_keep(args, places, default_settings());
    assert forall|k: int|
        0 <= k < places.len() && (forall|m: int|
            k < m < places.len() ==> args[#[trigger] places[m]] != args[places[k]]) implies {
        let read = settings_from(args, 1, default_settings());
        &&& args[#[trigger] places[k]] == "--listen"@ ==> read.listen == args[places[k] + 1]
        &&& args[places[k]] == "--php-ini"@ ==> read.php_ini_path == Some(args[places[k] + 1])
        &&& args[places[k]] == "--workers"@ ==> read.max_children == workers_value(
            args[places[k] + 1],
        )
    } by {
        last_place_holds(args, places, default_settings(), k);
    }
}

proof fn find_places(args: Seq<Seq<char>>, i: int) -> (places: Seq<int>)
    requires
        0 <= i,
    ensures
        places_from(args, i, places),
    decreases args.len() - i,
{
    if i >= args.len() {
        Seq::empty()
    } else if is_option(args[i]) && i + 1 < args.len() {
        let rest = find_places(args, i + 2);
        let places = seq![i] + rest;
        assert(forall|k: int| 0 < k < places.len() ==> #[trigger] places[k] == rest[k - 1]);
        assert(places[0] == i);
        assert forall|j: int|
            i <= j < args.len() - 1 && (#[trigger] args[j] == "--listen"@ || args[j] == "--php-ini"@
                || args[j] == "--workers"@) implies exists|k: int|
            0 <= k < places.len() && (#[trigger] places[k] == j || places[k] + 1 == j) by {
            if j >= i + 2 {
                let k = choose|k: int|
                    0 <= k < rest.len() && (#[trigger] rest[k] == j || rest[k] + 1 == j);
                assert(places[k + 1] == rest[k]);
            } else {
                assert(places[0] == j || places[0] + 1 == j);
            }
        }
        places
    } else {
        find_places(args, i + 1)
    }
}

/// Every command line has such places of options.
pub proof fn every_line_has_places(args: Seq<Seq<char>>) -> (places: Seq<int>)
    ensures
        forall|k: int|
            0 <= k < places.len() ==> {
                &&& 1 <= #[trigger] places[k] < args.len() - 1
                &&& args[places[k]] == "--listen"@ || args[places[k]] == "--php-ini"@
                    || args[places[k]] == "--workers"@
            },
        forall|k: int, m: int|
            0 <= k < m < places.len() ==> #[trigger] places[k] + 2 <= #[trigger] places[m],
        forall|j: int|
            1 <= j < args.len() - 1 && (#[trigger] args[j] == "--listen"@ || args[j] == "--php-ini"@
                || args[j] == "--workers"@) ==> exists|k: int|
                0 <= k < places.len() && (#[trigger] places[k] == j || places[k] + 1 == j),
{
    find_places(args, 1)
}

/// A row of digits asks for as many workers as its value, behind a `+` too, or for 1 where that many
/// do not fit.
pub proof fn workers_are_the_digits(row: Seq<char>)
    requires
        row.len() > 0,
        forall|i: int| 0 <= i < row.len() ==> 48 <= (#[trigger] row[i]) as int <= 57,
    ensures
        0 <= digits_value(row, 10) <= usize::MAX ==> workers_value(row) == digits_value(row, 10),
        0 <= digits_value(row, 10) <= usize::MAX ==> workers_value(seq!['+'] + row)
            == digits_value(row, 10),
        digits_value(row, 10) > usize::MAX ==> workers_value(row) == 1,
        digits_value(row, 10) > usize::MAX ==> workers_value(seq!['+'] + row) == 1,
        workers_value(seq!['+']) == 1,
{
    rows_of_digits_are_numbers(row, 10);
    other_texts_are_no_numbers(seq!['x'], 0, 10);
}

} // verus!
