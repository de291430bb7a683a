//! The configuration of the service, worked out from what the environment
//! holds. Reading the environment is the caller's part.

use vstd::prelude::*;
use vstd::string::*;

verus! {

/// What the configuration reads of the environment: the value of each
/// variable, where it is set.
#[derive(Debug, Clone)]
pub struct Environment {
    /// `RP_MODE`: the mode of the service.
    pub rp_mode: Option<String>,
    /// `KS_PORT`: the port to listen on.
    pub ks_port: Option<String>,
    /// `LOG_DIR` or `LOG_PATH`: where the logs go.
    pub log_path: Option<String>,
}

/// The mode of a service that is in production.
pub open spec fn release_mode() -> Seq<char> {
    "release"@
}

/// The mode of a service under test, and of one whose mode is not set.
pub open spec fn test_mode() -> Seq<char> {
    "test"@
}

/// The port where none is set.
pub open spec fn default_port() -> Seq<char> {
    "8887"@
}

/// The log directory where none is set.
pub open spec fn default_log_path() -> Seq<char> {
    "/data/logs/rust-practice"@
}

/// The mode for a value of `RP_MODE`: `release` where it says so, `test`
/// for anything else.
pub open spec fn mode_of(rp_mode: Option<Seq<char>>) -> Seq<char> {
    if rp_mode == Some(release_mode()) {
        release_mode()
    } else {
        test_mode()
    }
}

/// The text of an optional string.
pub open spec fn text_of(value: Option<String>) -> Option<Seq<char>> {
    match value {
        Some(s) => Some(s@),
        None => None,
    }
}

/// `value` where it is set, else `fallback`.
pub open spec fn or_default(value: Option<Seq<char>>, fallback: Seq<char>) -> Seq<char> {
    match value {
        Some(s) => s,
        None => fallback,
    }
}

/// The address of a MySQL database; empty where one of the parts is empty.
pub open spec fn mysql_uri(
    user: Seq<char>,
    password: Seq<char>,
    host: Seq<char>,
    dbname: Seq<char>,
) -> Seq<char> {
    if user.len() == 0 || password.len() == 0 || host.len() == 0 || dbname.len() == 0 {
        Seq::<char>::empty()
    } else {
        "mysql://"@ + user + ":"@ + password + "@"@ + host + "/"@ + dbname
    }
}

/// The address of a Redis server; empty where the host is empty.
pub open spec fn redis_uri(host: Seq<char>) -> Seq<char> {
    if host.len() == 0 {
        Seq::<char>::empty()
    } else {
        "redis://"@ + host
    }
}

/// The address of a Redis server with a password; empty where the host is
/// empty, and without the password part where the password is empty.
pub open spec fn redis_uri_with_password(host: Seq<char>, password: Seq<char>) -> Seq<char> {
    if host.len() == 0 {
        Seq::<char>::empty()
    } else if password.len() == 0 {
        "redis://"@ + host
    } else {
        "redis://:"@ + password + "@"@ + host
    }
}

/// The key of a profile in a mode: the profile's name, a hyphen and the mode.
pub open spec fn key_of(name: Seq<char>, mode: Seq<char>) -> Seq<char> {
    name + "-"@ + mode
}

/// The name of the profile that the service runs with.
pub open spec fn default_profile() -> Seq<char> {
    "default"@
}

/// The addresses of a database: the server that takes writes and the one
/// that is read from.
#[derive(Debug, Clone)]
pub struct DbConf {
    pub master: String,
    pub slave: String,
}

/// The cache of the service.
#[derive(Debug, Clone)]
pub struct RedisConfig {
    pub profile: String,
}

/// The databases of the service.
#[derive(Debug, Clone)]
pub struct MysqlConfig {
    pub relation: DbConf,
}

/// The parts of the address of a MySQL database.
#[derive(Debug, Clone)]
pub struct ConfMySQL {
    pub master: String,
    pub slave: String,
    pub username: String,
    pub password: String,
    pub database: String,
}

/// The parts of the address of a Redis server.
#[derive(Debug, Clone)]
pub struct ConfRedis {
    pub host: String,
    pub password: String,
}

/// A configuration under the key of its profile and mode.
#[derive(Debug, Clone)]
pub struct Keyed<T> {
    pub key: String,
    pub conf: T,
}

/// Whether `table` holds an entry under `key`.
pub open spec fn has_key<T>(table: Seq<Keyed<T>>, key: Seq<char>) -> bool {
    exists|i: int| 0 <= i < table.len() && (#[trigger] table[i]).key@ == key
}

/// Whether the entry at `i` is the one that counts under `key`: the last of
/// `table` under that key. A later entry replaces an earlier one, as in a
/// map that is filled in the order of the table.
pub open spec fn counts_under<T>(table: Seq<Keyed<T>>, key: Seq<char>, i: int) -> bool {
    &&& 0 <= i < table.len()
    &&& table[i].key@ == key
    &&& forall|j: int| i < j < table.len() ==> (#[trigger] table[j]).key@ != key
}

/// The entry of `table` that counts under `key`, if there is one.
pub fn lookup<'a, T>(table: &'a Vec<Keyed<T>>, key: &str) -> (found: Option<&'a T>)
    ensures
        found is Some == has_key(table@, key@),
        found matches Some(conf) ==> exists|i: int|
            counts_under(table@, key@, i) && *conf == (#[trigger] table@[i]).conf,
{
    let wanted = key.to_owned();
    let mut i: usize = table.len();
    while i > 0
        invariant
            i <= table.len(),
            wanted@ == key@,
            forall|j: int| i <= j < table.len() ==> (#[trigger] table@[j]).key@ != key@,
        decreases i,
    {
        i = i - 1;
        if table[i].key == wanted {
            assert(counts_under(table@, key@, i as int));
            return Some(&table[i].conf);
        }
    }
    None
}

/// The mode of the service for a value of `RP_MODE`.
fn mode_for(rp_mode: &Option<String>) -> (mode: String)
    ensures
        mode@ == mode_of(text_of(*rp_mode)),
{
    let release = "release".to_owned();
    match rp_mode {
        Some(value) => {
            if *value == release {
                release
            } else {
                "test".to_owned()
            }
        },
        None => "test".to_owned(),
    }
}

fn value_or(value: &Option<String>, fallback: &str) -> (text: String)
    ensures
        text@ == or_default(text_of(*value), fallback@),
{
    match value {
        Some(s) => s.clone(),
        None => fallback.to_owned(),
    }
}

fn build_mysql_uri(user: &str, password: &str, host: &str, dbname: &str) -> (uri: String)
    ensures
        uri@ == mysql_uri(user@, password@, host@, dbname@),
{
    let mut uri = String::new();
    if user.is_empty() || password.is_empty() || host.is_empty() || dbname.is_empty() {
        return uri;
    }
    uri.append("mysql://");
    uri.append(user);
    uri.append(":");
    uri.append(password);
    uri.append("@");
    uri.append(host);
    uri.append("/");
    uri.append(dbname);
    assert(uri@ =~= mysql_uri(user@, password@, host@, dbname@));
    uri
}

fn build_redis_uri(host: &str) -> (uri: String)
    ensures
        uri@ == redis_uri(host@),
{
    let mut uri = String::new();
    if host.is_empty() {
        return uri;
    }
    uri.append("redis://");
    uri.append(host);
    assert(uri@ =~= redis_uri(host@));
    uri
}

/// The configuration of the service with the two addresses of its database
/// kept together.
#[derive(Debug, Clone)]
pub struct Config {
    pub cache: RedisConfig,
    pub db: MysqlConfig,
    pub env: String,
    pub log_path: String,
    pub port: String,
}

impl Config {
    /// The configuration for what the environment holds: the addresses of
    /// the default profile, the mode, and the log directory and the port,
    /// each with its default where it is not set.
    pub fn init(environment: &Environment) -> (config: Self)
        ensures
            config.env@ == mode_of(text_of(environment.rp_mode)),
            config.log_path@ == or_default(text_of(environment.log_path), default_log_path()),
            config.port@ == or_default(text_of(environment.ks_port), default_port()),
            config.cache.profile@ == redis_uri("127.0.0.1"@),
            config.db.relation.master@ == mysql_uri(
                "test"@,
                "test@123"@,
                "127.0.0.1"@,
                "test"@,
            ),
            config.db.relation.slave@ == config.db.relation.master@,
    {
        let mode = Self::get_mode(&environment.rp_mode);
        let cache = Self::get_redis_config(mode.as_str());
        let db = Self::get_mysql_config(mode.as_str());
        let profile = Self::create_redis_uri(cache.host.as_str());
        let relation = Self::create_mysql_uri(
            db.username.as_str(),
            db.password.as_str(),
            db.master.as_str(),
            db.slave.as_str(),
            db.database.as_str(),
        );
        Config {
            cache: RedisConfig { profile },
            db: MysqlConfig { relation },
            env: mode,
            log_path: value_or(&environment.log_path, "/data/logs/rust-practice"),
            port: value_or(&environment.ks_port, "8887"),
        }
    }

    /// The mode of the service for a value of `RP_MODE`: `release` where it
    /// says so, `test` for anything else.
    pub fn get_mode(rp_mode: &Option<String>) -> (mode: String)
        ensures
            mode@ == mode_of(text_of(*rp_mode)),
    {
        mode_for(rp_mode)
    }

    /// The two addresses of a database; both empty where one of the parts is
    /// empty.
    pub fn create_mysql_uri(user: &str, password: &str, master: &str, slave: &str, dbname: &str) -> (conf:
        DbConf)
        ensures
            user@.len() == 0 || password@.len() == 0 || master@.len() == 0 || slave@.len() == 0
                || dbname@.len() == 0 ==> conf.master@.len() == 0 && conf.slave@.len() == 0,
            !(user@.len() == 0 || password@.len() == 0 || master@.len() == 0 || slave@.len() == 0
                || dbname@.len() == 0) ==> conf.master@ == mysql_uri(
                user@,
                password@,
                master@,
                dbname@,
            ) && conf.slave@ == mysql_uri(user@, password@, slave@, dbname@),
    {
        if user.is_empty() || password.is_empty() || master.is_empty() || slave.is_empty()
            || dbname.is_empty() {
            return DbConf { master: String::new(), slave: String::new() };
        }
        DbConf {
            master: build_mysql_uri(user, password, master, dbname),
            slave: build_mysql_uri(user, password, slave, dbname),
        }
    }

    /// The address of a Redis server; empty where the host is empty.
    pub fn create_redis_uri(path: &str) -> (uri: String)
        ensures
            uri@ == redis_uri(path@),
    {
        build_redis_uri(path)
    }

    /// The address of a Redis server with a password; empty where the host
    /// is empty, and without the password part where the password is empty.
    pub fn create_redis_uri_with_password(path: &str, password: &str) -> (uri: String)
        ensures
            uri@ == redis_uri_with_password(path@, password@),
    {
        let mut uri = String::new();
        if path.is_empty() {
            return uri;
        }
        if password.is_empty() {
            uri.append("redis://");
            uri.append(path);
        } else {
            uri.append("redis://:");
            uri.append(password);
            uri.append("@");
            uri.append(path);
        }
        assert(uri@ =~= redis_uri_with_password(path@, password@));
        uri
    }

    /// The database of the default profile. It is the same in every mode.
    pub fn get_mysql_config(mode: &str) -> (conf: ConfMySQL)
        ensures
            conf.master@ == "127.0.0.1"@,
            conf.slave@ == "127.0.0.1"@,
            conf.username@ == "test"@,
            conf.password@ == "test@123"@,
            conf.database@ == "test"@,
    {
        ConfMySQL {
            master: "127.0.0.1".to_owned(),
            slave: "127.0.0.1".to_owned(),
            username: "test".to_owned(),
            password: "test@123".to_owned(),
            database: "test".to_owned(),
        }
    }

    /// The cache of the default profile. It is the same in every mode.
    pub fn get_redis_config(mode: &str) -> (conf: ConfRedis)
        ensures
            conf.host@ == "127.0.0.1"@,
            conf.password@.len() == 0,
    {
        ConfRedis { host: "127.0.0.1".to_owned(), password: String::new() }
    }
}

/// The configuration of the service with one address for each server.
#[derive(Debug, Clone)]
pub struct AppConfig {
    pub env: String,
    pub port: String,
    pub path: String,
    pub db_master: String,
    pub db_slave: String,
    pub cache: String,
}

/// The configuration that [`AppConfig::init`] makes of the default
/// profile's database and cache.
pub open spec fn app_config_ok(
    config: AppConfig,
    environment: Environment,
    db: ConfMySQL,
    cache: ConfRedis,
) -> bool {
    &&& config.env@ == mode_of(text_of(environment.rp_mode))
    &&& config.port@ == or_default(text_of(environment.ks_port), default_port())
    &&& config.path@ == or_default(text_of(environment.log_path), default_log_path())
    &&& config.db_master@ == mysql_uri(db.username@, db.password@, db.master@, db.database@)
    &&& config.db_slave@ == mysql_uri(db.username@, db.password@, db.slave@, db.database@)
    &&& config.cache@ == redis_uri(cache.host@)
}

impl AppConfig {
    /// The configuration for what the environment holds, with the database
    /// and the cache that the tables hold for the default profile in the
    /// mode of the service. None where a table has no such entry.
    pub fn init(
        environment: &Environment,
        mysql: &Vec<Keyed<ConfMySQL>>,
        redis: &Vec<Keyed<ConfRedis>>,
    ) -> (config: Option<Self>)
        ensures
            config is Some == (has_key(
                mysql@,
                key_of(default_profile(), mode_of(text_of(environment.rp_mode))),
            ) && has_key(
                redis@,
                key_of(default_profile(), mode_of(text_of(environment.rp_mode))),
            )),
            config matches Some(c) ==> exists|i: int, j: int|
                counts_under(
                    mysql@,
                    key_of(default_profile(), mode_of(text_of(environment.rp_mode))),
                    i,
                ) && counts_under(
                    redis@,
                    key_of(default_profile(), mode_of(text_of(environment.rp_mode))),
                    j,
                ) && app_config_ok(
                    c,
                    *environment,
                    (#[trigger] mysql@[i]).conf,
                    (#[trigger] redis@[j]).conf,
                ),
    {
        let mode = Self::get_mode(&environment.rp_mode);
        let cache = match Self::get_redis_config(redis, mode.as_str()) {
            Some(conf) => conf,
            None => {
                return None;
            },
        };
        let db = match Self::get_mysql_config(mysql, mode.as_str()) {
            Some(conf) => conf,
            None => {
                return None;
            },
        };
        Some(Self::assemble(environment, db, cache))
    }

    /// The configuration for what the environment holds and for the given
    /// database and cache.
    pub fn assemble(environment: &Environment, db: &ConfMySQL, cache: &ConfRedis) -> (config: Self)
        ensures
            app_config_ok(config, *environment, *db, *cache),
    {
        AppConfig {
            env: Self::get_mode(&environment.rp_mode),
            port: value_or(&environment.ks_port, "8887"),
            path: value_or(&environment.log_path, "/data/logs/rust-practice"),
            db_master: Self::create_mysql_uri(
                db.username.as_str(),
                db.password.as_str(),
                db.master.as_str(),
                db.database.as_str(),
            ),
            db_slave: Self::create_mysql_uri(
                db.username.as_str(),
                db.password.as_str(),
                db.slave.as_str(),
                db.database.as_str(),
            ),
            cache: Self::create_redis_uri(cache.host.as_str()),
        }
    }

    /// The mode of the service for a value of `RP_MODE`: `release` where it
    /// says so, `test` for anything else.
    pub fn get_mode(rp_mode: &Option<String>) -> (mode: String)
        ensures
            mode@ == mode_of(text_of(*rp_mode)),
    {
        mode_for(rp_mode)
    }

    /// The address of a MySQL database; empty where one of the parts is
    /// empty.
    pub fn create_mysql_uri(user: &str, password: &str, host: &str, dbname: &str) -> (uri: String)
        ensures
            uri@ == mysql_uri(user@, password@, host@, dbname@),
    {
        build_mysql_uri(user, password, host, dbname)
    }

    /// The address of a Redis server; empty where the host is empty.
    pub fn create_redis_uri(host: &str) -> (uri: String)
        ensures
            uri@ == redis_uri(host@),
    {
        build_redis_uri(host)
    }

    /// The key of the profile `k` in `mode`.
    pub fn get_key(k: &str, mode: &str) -> (key: String)
        ensures
            key@ == key_of(k@, mode@),
    {
        let mut key = String::new();
        key.append(k);
        key.append("-");
        key.append(mode);
        assert(key@ =~= key_of(k@, mode@));
        key
    }

    /// The database that `table` holds for the default profile in `mode`.
    pub fn get_mysql_config<'a>(table: &'a Vec<Keyed<ConfMySQL>>, mode: &str) -> (found: Option<
        &'a ConfMySQL,
    >)
        ensures
            found is Some == has_key(table@, key_of(default_profile(), mode@)),
            found matches Some(conf) ==> exists|i: int|
                counts_under(table@, key_of(default_profile(), mode@), i) && *conf == (
                #[trigger] table@[i]).conf,
    {
        let key = Self::get_key("default", mode);
        lookup(table, key.as_str())
    }

    /// The cache that `table` holds for the default profile in `mode`.
    pub fn get_redis_config<'a>(table: &'a Vec<Keyed<ConfRedis>>, mode: &str) -> (found: Option<
        &'a ConfRedis,
    >)
        ensures
            found is Some == has_key(table@, key_of(default_profile(), mode@)),
            found matches Some(conf) ==> exists|i: int|
                counts_under(table@, key_of(default_profile(), mode@), i) && *conf == (
                #[trigger] table@[i]).conf,
    {
        let key = Self::get_key("default", mode);
        lookup(table, key.as_str())
    }
}

} // verus!
