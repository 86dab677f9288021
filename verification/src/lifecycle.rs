//! Lifecycle decisions around the registry: turning a stored connection
//! record into connect parameters, and planning a bulk auto-connect — which
//! saved connections to skip, which are already live, and which to attempt.
//! The attempts themselves (network handshakes, worker threads) stand
//! outside the library; one failing attempt never fails the others.

use vstd::prelude::*;

use crate::model::{AppError, ConnectParams, DatabaseConnection, DatabaseKind};
use crate::registry::ConnectionRegistry;
use crate::text::{chars_eq_str, str_chars};

verus! {

/// Finds the stored connection record with the given identifier.
pub fn find_connection<'a>(connections: &'a Vec<DatabaseConnection>, id: &str) -> (r: Result<
    &'a DatabaseConnection,
    AppError,
>)
    ensures
        match r {
            Ok(c) => exists|i: int|
                0 <= i < connections@.len() && (#[trigger] connections@[i]).id@ == id@ && *c
                    == connections@[i],
            Err(e) => {
                &&& forall|i: int|
                    0 <= i < connections@.len() ==> (#[trigger] connections@[i]).id@ != id@
                &&& e matches AppError::NotFound(m) && m@ == "Connection "@ + id@ + " not found"@
            },
        },
{
    let n = connections.len();
    let mut i: usize = 0;
    while i < n
        invariant
            n == connections@.len(),
            i <= n,
            forall|j: int| 0 <= j < i ==> (#[trigger] connections@[j]).id@ != id@,
        decreases n - i,
    {
        let c = str_chars(connections[i].id.as_str());
        if chars_eq_str(c.as_slice(), id) {
            return Ok(&connections[i]);
        }
        i = i + 1;
    }
    Err(AppError::NotFound(String::from_str("Connection ").concat(id).concat(" not found")))
}

/// How connect parameters relate to the stored record they came from, with
/// the credentials the caller supplied.
pub open spec fn params_from_record(
    c: DatabaseConnection,
    password: Seq<char>,
    use_ssl: bool,
    p: ConnectParams,
) -> bool {
    &&& DatabaseKind::of_alias(c.db_type@) == Some(p.kind)
    &&& p.host@ == c.host@
    &&& p.port == c.port
    &&& p.database@ == c.database@
    &&& p.username@ == c.username@
    &&& p.password@ == password
    &&& p.use_ssl == use_ssl
}

/// Builds connect parameters from a stored record and the caller-supplied
/// credentials; an unrecognized backend name is rejected, never defaulted.
pub fn build_connect_params(c: &DatabaseConnection, password: String, use_ssl: bool) -> (r: Result<
    ConnectParams,
    AppError,
>)
    ensures
        match r {
            Ok(p) => params_from_record(*c, password@, use_ssl, p),
            Err(e) => {
                &&& DatabaseKind::of_alias(c.db_type@) is None
                &&& e matches AppError::ConnectionFailed(m) && m@ == "Unsupported database type: "@
                    + c.db_type@
            },
        },
{
    match DatabaseKind::from_str_loose(c.db_type.as_str()) {
        Some(kind) => Ok(
            ConnectParams {
                kind,
                host: c.host.clone(),
                port: c.port,
                database: c.database.clone(),
                username: c.username.clone(),
                password,
                use_ssl,
            },
        ),
        None => Err(
            AppError::ConnectionFailed(
                String::from_str("Unsupported database type: ").concat(c.db_type.as_str()),
            ),
        ),
    }
}

/// A record takes part in auto-connect when it has a stored password, or is
/// a SQLite record (which needs none).
pub open spec fn auto_eligible(c: DatabaseConnection) -> bool {
    !(c.password@.len() == 0 && c.db_type@ != "SQLite"@)
}

/// The identifiers of eligible records that are already live, in record
/// order.
pub open spec fn already_ids(s: Seq<DatabaseConnection>, dom: Set<Seq<char>>) -> Seq<Seq<char>>
    decreases s.len(),
{
    if s.len() == 0 {
        Seq::empty()
    } else {
        let prior = already_ids(s.drop_last(), dom);
        let c = s.last();
        if auto_eligible(c) && dom.contains(c.id@) {
            prior.push(c.id@)
        } else {
            prior
        }
    }
}

/// The identifiers of eligible records still to be attempted: not live yet,
/// and of a recognized backend.
pub open spec fn to_connect_ids(s: Seq<DatabaseConnection>, dom: Set<Seq<char>>) -> Seq<Seq<char>>
    decreases s.len(),
{
    if s.len() == 0 {
        Seq::empty()
    } else {
        let prior = to_connect_ids(s.drop_last(), dom);
        let c = s.last();
        if auto_eligible(c) && !dom.contains(c.id@) && DatabaseKind::of_alias(c.db_type@) is Some {
            prior.push(c.id@)
        } else {
            prior
        }
    }
}

/// Plans a bulk auto-connect over saved records: records without a stored
/// password (unless SQLite) are skipped; eligible records already in the
/// registry are reported as live; the rest, when their backend name parses,
/// are returned with ready connect parameters for parallel attempts.
pub fn plan_auto_connect<T>(
    connections: &Vec<DatabaseConnection>,
    registry: &ConnectionRegistry<T>,
) -> (r: (Vec<String>, Vec<(String, ConnectParams)>))
    requires
        registry.wf(),
    ensures
        r.0@.map_values(|s: String| s@) == already_ids(connections@, registry.contents().dom()),
        r.1@.map_values(|pr: (String, ConnectParams)| pr.0@) == to_connect_ids(
            connections@,
            registry.contents().dom(),
        ),
        forall|i: int|
            0 <= i < r.1@.len() ==> exists|j: int|
                0 <= j < connections@.len() && (#[trigger] connections@[j]).id@ == (
                #[trigger] r.1@[i]).0@ && params_from_record(
                    connections@[j],
                    connections@[j].password@,
                    connections@[j].use_ssl,
                    r.1@[i].1,
                ),
{
    let ghost dom = registry.contents().dom();
    let n = connections.len();
    let mut live: Vec<String> = Vec::new();
    let mut attempts: Vec<(String, ConnectParams)> = Vec::new();
    proof {
        assert(live@.map_values(|s: String| s@) =~= already_ids(connections@.take(0), dom));
        assert(attempts@.map_values(|pr: (String, ConnectParams)| pr.0@) =~= to_connect_ids(
            connections@.take(0),
            dom,
        ));
    }
    let mut i: usize = 0;
    while i < n
        invariant
            registry.wf(),
            dom == registry.contents().dom(),
            n == connections@.len(),
            i <= n,
            live@.map_values(|s: String| s@) == already_ids(connections@.take(i as int), dom),
            attempts@.map_values(|pr: (String, ConnectParams)| pr.0@) == to_connect_ids(
                connections@.take(i as int),
                dom,
            ),
            forall|q: int|
                0 <= q < attempts@.len() ==> exists|j: int|
                    0 <= j < connections@.len() && (#[trigger] connections@[j]).id@ == (
                    #[trigger] attempts@[q]).0@ && params_from_record(
                        connections@[j],
                        connections@[j].password@,
                        connections@[j].use_ssl,
                        attempts@[q].1,
                    ),
        decreases n - i,
    {
        let c = &connections[i];
        proof {
            assert(connections@.take(i + 1 as int).drop_last() =~= connections@.take(i as int));
            assert(connections@.take(i + 1 as int).last() == connections@[i as int]);
        }
        let skip_record: bool = c.password.as_str().is_empty() && {
            let t = str_chars(c.db_type.as_str());
            !chars_eq_str(t.as_slice(), "SQLite")
        };
        if !skip_record {
            proof {
                assert(auto_eligible(connections@[i as int]));
            }
            if registry.get(c.id.as_str()).is_some() {
                live.push(c.id.clone());
                proof {
                    assert(live@.map_values(|s: String| s@) =~= already_ids(
                        connections@.take(i + 1 as int),
                        dom,
                    ));
                    assert(attempts@.map_values(|pr: (String, ConnectParams)| pr.0@)
                        =~= to_connect_ids(connections@.take(i + 1 as int), dom));
                }
            } else {
                match DatabaseKind::from_str_loose(c.db_type.as_str()) {
                    Some(kind) => {
                        let params = ConnectParams {
                            kind,
                            host: c.host.clone(),
                            port: c.port,
                            database: c.database.clone(),
                            username: c.username.clone(),
                            password: c.password.clone(),
                            use_ssl: c.use_ssl,
                        };
                        attempts.push((c.id.clone(), params));
                        proof {
                            assert(live@.map_values(|s: String| s@) =~= already_ids(
                                connections@.take(i + 1 as int),
                                dom,
                            ));
                            assert(attempts@.map_values(|pr: (String, ConnectParams)| pr.0@)
                                =~= to_connect_ids(connections@.take(i + 1 as int), dom));
                            assert forall|q: int| 0 <= q < attempts@.len() implies exists|j: int|
                                0 <= j < connections@.len() && (#[trigger] connections@[j]).id@
                                    == (#[trigger] attempts@[q]).0@ && params_from_record(
                                    connections@[j],
                                    connections@[j].password@,
                                    connections@[j].use_ssl,
                                    attempts@[q].1,
                                ) by {
                                if q == attempts@.len() - 1 {
                                    assert(connections@[i as int].id@ == attempts@[q].0@
                                        && params_from_record(
                                        connections@[i as int],
                                        connections@[i as int].password@,
                                        connections@[i as int].use_ssl,
                                        attempts@[q].1,
                                    ));
                                }
                            }
                        }
                    },
                    None => {
                        proof {
                            assert(live@.map_values(|s: String| s@) =~= already_ids(
                                connections@.take(i + 1 as int),
                                dom,
                            ));
                            assert(attempts@.map_values(|pr: (String, ConnectParams)| pr.0@)
                                =~= to_connect_ids(connections@.take(i + 1 as int), dom));
                        }
                    },
                }
            }
        } else {
            proof {
                assert(!auto_eligible(connections@[i as int]));
                assert(live@.map_values(|s: String| s@) =~= already_ids(
                    connections@.take(i + 1 as int),
                    dom,
                ));
                assert(attempts@.map_values(|pr: (String, ConnectParams)| pr.0@) =~= to_connect_ids(
                    connections@.take(i + 1 as int),
                    dom,
                ));
            }
        }
        i = i + 1;
    }
    proof {
        assert(connections@.take(n as int) =~= connections@);
    }
    (live, attempts)
}

} // verus!
