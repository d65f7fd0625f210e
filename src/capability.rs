use vstd::prelude::*;

verus! {

/// Name under which the database capability is configured.
pub const MONGO_NAME: &'static str = "mongo";

/// Configuration field holding the database connection string.
pub const CONNECTION_STRING: &'static str = "connection_string";

/// Configuration field holding the logical database name.
pub const DATABASE: &'static str = "database";

/// The value configured for `key` in a list of configuration fields: the first
/// entry whose name is `key`, as a lookup in a map with unique keys gives.
pub open spec fn arg_value(args: Seq<(Seq<char>, Seq<char>)>, key: Seq<char>) -> Option<Seq<char>>
    decreases args.len(),
{
    if args.len() == 0 {
        None
    } else if args[0].0 == key {
        Some(args[0].1)
    } else {
        arg_value(args.drop_first(), key)
    }
}

/// A configured database capability: where to connect and which database to use.
pub struct MongoDB {
    pub connection_string: String,
    pub database: String,
}

/// A capability that a module may be granted.
pub enum Capability {
    MongoDB(MongoDB),
}

/// Why a capability configuration was rejected.
#[derive(Debug)]
pub enum CapabilityInitError {
    /// No capability goes by this name.
    UnknownCapability(String),
    /// The capability (first) lacks a required field (second).
    MissingArg(String, String),
}

/// Whether `name` with fields `args` configures a capability.
pub open spec fn valid_config(name: Seq<char>, args: Seq<(Seq<char>, Seq<char>)>) -> bool {
    &&& name == MONGO_NAME@
    &&& arg_value(args, CONNECTION_STRING@) is Some
    &&& arg_value(args, DATABASE@) is Some
}

/// What building the database capability from `args` gives: the capability
/// with both required fields, else the first required field that is missing.
pub open spec fn mongo_outcome(args: Seq<(Seq<char>, Seq<char>)>, r: Result<MongoDB, CapabilityInitError>) -> bool {
    match r {
        Ok(m) => {
            &&& arg_value(args, CONNECTION_STRING@) == Some(m.connection_string@)
            &&& arg_value(args, DATABASE@) == Some(m.database@)
        },
        Err(CapabilityInitError::MissingArg(cap, field)) => {
            &&& cap@ == MONGO_NAME@
            &&& if arg_value(args, CONNECTION_STRING@) is None {
                field@ == CONNECTION_STRING@
            } else {
                arg_value(args, DATABASE@) is None && field@ == DATABASE@
            }
        },
        Err(CapabilityInitError::UnknownCapability(_)) => false,
    }
}

/// What building the capability `name` from `args` gives.
pub open spec fn config_outcome(
    name: Seq<char>,
    args: Seq<(Seq<char>, Seq<char>)>,
    r: Result<Capability, CapabilityInitError>,
) -> bool {
    if name == MONGO_NAME@ {
        match r {
            Ok(Capability::MongoDB(m)) => mongo_outcome(args, Ok(m)),
            Err(e) => mongo_outcome(args, Err(e)),
        }
    } else {
        match r {
            Err(CapabilityInitError::UnknownCapability(n)) => n@ == name,
            _ => false,
        }
    }
}

/// Looks up the field `key` among `args`.
fn find_arg(args: &Vec<(String, String)>, key: &str) -> (r: Option<String>)
    ensures
        match r {
            Some(v) => arg_value(args.deep_view(), key@) == Some(v@),
            None => arg_value(args.deep_view(), key@) is None,
        },
{
    let wanted = key.to_owned();
    let ghost all = args.deep_view();
    let mut i: usize = 0;
    assert(all.subrange(0, all.len() as int) =~= all);
    while i < args.len()
        invariant
            i <= args.len(),
            all == args.deep_view(),
            wanted@ == key@,
            arg_value(all, key@) == arg_value(all.subrange(i as int, all.len() as int), key@),
        decreases args.len() - i,
    {
        let ghost rest = all.subrange(i as int, all.len() as int);
        assert(rest.drop_first() =~= all.subrange(i + 1, all.len() as int));
        assert(rest[0] == all[i as int]);
        assert(all[i as int] == (args@[i as int].0@, args@[i as int].1@));
        if args[i].0 == wanted {
            let v = args[i].1.clone();
            assert(rest[0].0 == key@);
            assert(arg_value(rest, key@) == Some(v@));
            return Some(v);
        }
        i = i + 1;
    }
    assert(all.subrange(i as int, all.len() as int).len() == 0);
    None
}

impl MongoDB {
    /// Builds the database capability from its configuration fields; the
    /// connection string is checked before the database name.
    pub fn from_args(args: &Vec<(String, String)>) -> (r: Result<MongoDB, CapabilityInitError>)
        ensures
            mongo_outcome(args.deep_view(), r),
    {
        let connection_string = match find_arg(args, CONNECTION_STRING) {
            Some(v) => v,
            None => {
                return Err(
                    CapabilityInitError::MissingArg(MONGO_NAME.to_owned(), CONNECTION_STRING.to_owned()),
                );
            },
        };
        let database = match find_arg(args, DATABASE) {
            Some(v) => v,
            None => {
                return Err(CapabilityInitError::MissingArg(MONGO_NAME.to_owned(), DATABASE.to_owned()));
            },
        };
        Ok(MongoDB { connection_string, database })
    }
}

impl Capability {
    /// Validates a capability configuration and builds the capability it names.
    pub fn from_config(cap: &str, args: &Vec<(String, String)>) -> (r: Result<Capability, CapabilityInitError>)
        ensures
            config_outcome(cap@, args.deep_view(), r),
            r is Ok <==> valid_config(cap@, args.deep_view()),
    {
        let name = cap.to_owned();
        if name == MONGO_NAME.to_owned() {
            match MongoDB::from_args(args) {
                Ok(m) => Ok(Capability::MongoDB(m)),
                Err(e) => Err(e),
            }
        } else {
            Err(CapabilityInitError::UnknownCapability(name))
        }
    }
}

} // verus!
