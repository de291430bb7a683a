//! The connection pools of the service: what each pool is asked for.
//! Opening the connections is the caller's part.

use vstd::prelude::*;
use vstd::string::*;

verus! {

/// What a pool of database connections is opened with.
#[derive(Debug, Clone)]
pub struct DbPoolPlan {
    /// The address of the database.
    pub url: String,
    /// The connections that are kept open.
    pub min_connections: u32,
    /// The most connections that are open at a time.
    pub max_connections: u32,
}

/// What a pool of cache connections is opened with.
#[derive(Debug, Clone)]
pub struct RedisPoolPlan {
    /// The address of the cache.
    pub url: String,
    /// The most connections that are open at a time; the pool's own
    /// default where none is given.
    pub max_size: Option<u32>,
    /// The seconds to wait for a connection, to open one and to check one;
    /// no limit where none is given.
    pub timeout_secs: Option<u64>,
}

/// The pools of a service with few connections.
pub struct AppConnect;

/// The pools of a service with many connections.
pub struct Connect;

fn db_plan(database_url: &str, min_connections: u32, max_connections: u32) -> (plan: Option<
    DbPoolPlan,
>)
    ensures
        plan is Some == (database_url@.len() > 0),
        plan matches Some(p) ==> p.url@ == database_url@ && p.min_connections == min_connections
            && p.max_connections == max_connections,
{
    if database_url.is_empty() {
        None
    } else {
        Some(DbPoolPlan { url: database_url.to_owned(), min_connections, max_connections })
    }
}

impl AppConnect {
    /// The plan of the database pool: from 10 to 20 connections. None where
    /// the address is empty.
    pub fn create_db_pool(database_url: &str) -> (plan: Option<DbPoolPlan>)
        ensures
            plan is Some == (database_url@.len() > 0),
            plan matches Some(p) ==> p.url@ == database_url@ && p.min_connections == 10
                && p.max_connections == 20,
    {
        db_plan(database_url, 10, 20)
    }

    /// The plan of the cache pool, with the pool's own limits. None where
    /// the address is empty.
    pub fn create_redis_pool(redis_url: &str) -> (plan: Option<RedisPoolPlan>)
        ensures
            plan is Some == (redis_url@.len() > 0),
            plan matches Some(p) ==> p.url@ == redis_url@ && p.max_size is None
                && p.timeout_secs is None,
    {
        if redis_url.is_empty() {
            None
        } else {
            Some(RedisPoolPlan { url: redis_url.to_owned(), max_size: None, timeout_secs: None })
        }
    }
}

impl Connect {
    /// The plan of the database pool: from 100 to 200 connections. None
    /// where the address is empty.
    pub fn create_db_pool(database_url: &str) -> (plan: Option<DbPoolPlan>)
        ensures
            plan is Some == (database_url@.len() > 0),
            plan matches Some(p) ==> p.url@ == database_url@ && p.min_connections == 100
                && p.max_connections == 200,
    {
        db_plan(database_url, 100, 200)
    }

    /// The plan of the cache pool: at most 40 connections, and one second
    /// for each wait. None where the address is empty.
    pub fn create_redis_pool(redis_url: &str) -> (plan: Option<RedisPoolPlan>)
        ensures
            plan is Some == (redis_url@.len() > 0),
            plan matches Some(p) ==> p.url@ == redis_url@ && p.max_size == Some(40u32)
                && p.timeout_secs == Some(1u64),
    {
        if redis_url.is_empty() {
            None
        } else {
            Some(
                RedisPoolPlan {
                    url: redis_url.to_owned(),
                    max_size: Some(40),
                    timeout_secs: Some(1),
                },
            )
        }
    }
}

} // verus!
