//! The names under which listeners are registered, and the addresses and directories of the
//! servers behind them.
use vstd::prelude::*;

use crate::outside::{is_simple_v7, now_v7_simple, parse_url, parsed_url, IdSource};
use crate::registry::{
    after_requests, law_listeners_are_unique, law_restart_reuses_the_listener, RegistryState,
};
use crate::text::{decimal, decimal_text, is_numeral, join2, law_decimal_is_the_numeral};

verus! {

/// The registry key of the S3 server of `key`.
pub open spec fn s3_key(key: Seq<char>) -> Seq<char> {
    "s3-"@ + key
}

/// The registry key of the database server of `key`.
pub open spec fn db_key(key: Seq<char>) -> Seq<char> {
    "db-"@ + key
}

/// The registry key of the stalling server of `key`.
pub open spec fn stall_key(key: Seq<char>) -> Seq<char> {
    "stall-"@ + key
}

/// The registry key under which the S3 server of a test listens.
pub fn s3_listener_key(key: &str) -> (name: String)
    ensures
        name@ == s3_key(key@),
{
    join2("s3-", key)
}

/// The registry key under which the database server of a test listens.
pub fn db_listener_key(key: &str) -> (name: String)
    ensures
        name@ == db_key(key@),
{
    join2("db-", key)
}

/// The registry key under which the stalling server of a test listens.
pub fn stall_listener_key(key: &str) -> (name: String)
    ensures
        name@ == stall_key(key@),
{
    join2("stall-", key)
}

/// The address of a server that listens on `port` of this machine.
pub open spec fn loopback(port: nat) -> Seq<char> {
    "http://127.0.0.1:"@ + decimal(port)
}

/// The endpoint of an S3 server on `port`.
pub fn s3_endpoint(port: u16) -> (endpoint: String)
    ensures
        endpoint@ == loopback(port as nat),
{
    let digits = decimal_text(port as u64);
    join2("http://127.0.0.1:", digits.as_str())
}

/// `endpoint` with a slash at its end.
pub fn with_slash(endpoint: &str) -> (s: String)
    ensures
        s@ == endpoint@ + "/"@,
{
    join2(endpoint, "/")
}

/// An address that is no URL.
#[derive(Debug, Clone, Copy, PartialEq, Eq, Structural)]
pub struct InvalidAddress;

/// The text of the address of a database server on `port`.
pub open spec fn localhost(port: nat) -> Seq<char> {
    "http://localhost:"@ + decimal(port)
}

/// Takes the address out of the outcome of parsing it.
pub fn parsed_address(parsed: Result<String, url::ParseError>) -> (r: Result<
    String,
    InvalidAddress,
>)
    ensures
        match parsed {
            Ok(url) => r == Ok::<String, InvalidAddress>(url),
            Err(_) => r == Err::<String, InvalidAddress>(InvalidAddress),
        },
{
    match parsed {
        Ok(url) => Ok(url),
        Err(_) => Err(InvalidAddress),
    }
}

/// The URL at which the database server on `port` is reached.
pub fn connection_addr(port: u16) -> (r: Result<String, InvalidAddress>)
    ensures
        r is Ok <==> parsed_url(localhost(port as nat)) is Some,
        r matches Ok(url) ==> parsed_url(localhost(port as nat)) == Some(url@),
{
    let digits = decimal_text(port as u64);
    let text = join2("http://localhost:", digits.as_str());
    parsed_address(parse_url(text.as_str()))
}

/// The directory of the S3 server `id`.
pub open spec fn s3_dir(id: Seq<char>) -> Seq<char> {
    "s3s-"@ + id
}

/// The name of the directory in which the S3 server `id` keeps its objects.
pub fn s3_dir_name(id: &str) -> (name: String)
    ensures
        name@ == s3_dir(id@),
{
    join2("s3s-", id)
}

/// Whether `name` is that of the directory of a new id, with which `made` grows to `made_then`.
pub open spec fn is_fresh_dir(
    made: Set<Seq<char>>,
    name: Seq<char>,
    made_then: Set<Seq<char>>,
) -> bool {
    exists|id: Seq<char>|
        {
            &&& is_simple_v7(id)
            &&& name == #[trigger] s3_dir(id)
            &&& !made.contains(id)
            &&& made_then == made.insert(id)
        }
}

/// The name of a directory for the objects of a new S3 server: none that was named with an id of
/// `source` before.
pub fn fresh_s3_dir_name(source: &mut IdSource) -> (name: String)
    ensures
        is_fresh_dir(old(source)@, name@, final(source)@),
{
    let id = now_v7_simple(source);
    let name = s3_dir_name(id.as_str());
    assert(name@ == s3_dir(id@));
    name
}

/// The new S3 servers of a process share nothing: over any series of them, where `made` are the
/// ids that there were before each of them and after the last, no two have the same directory,
/// and none has that of an id from before.
pub proof fn law_fresh_directories_are_new(made: Seq<Set<Seq<char>>>, names: Seq<Seq<char>>)
    requires
        made.len() == names.len() + 1,
        forall|i: int|
            #![trigger names[i]]
            0 <= i < names.len() ==> is_fresh_dir(made[i], names[i], made[i + 1]),
    ensures
        names.no_duplicates(),
        forall|i: int, id: Seq<char>|
            0 <= i < names.len() && #[trigger] made[0].contains(id) ==> #[trigger] names[i]
                != s3_dir(id),
{
    assert forall|i: int, id: Seq<char>|
        0 <= i < names.len() && #[trigger] made[0].contains(id) implies #[trigger] names[i]
        != s3_dir(id) by {
        lemma_ids_stay_made(made, names, 0, i, id);
        lemma_name_is_new(made[i], names[i], made[i + 1], id);
    }
    assert forall|i: int, j: int| 0 <= i < j < names.len() implies names[i] != names[j] by {
        assert(is_fresh_dir(made[i], names[i], made[i + 1]));
        let id = choose|id: Seq<char>|
            {
                &&& is_simple_v7(id)
                &&& names[i] == #[trigger] s3_dir(id)
                &&& !made[i].contains(id)
                &&& made[i + 1] == made[i].insert(id)
            };
        lemma_ids_stay_made(made, names, i + 1, j, id);
        lemma_name_is_new(made[j], names[j], made[j + 1], id);
    }
}

/// A fresh name is not that of an id that was made before.
proof fn lemma_name_is_new(
    made: Set<Seq<char>>,
    name: Seq<char>,
    made_then: Set<Seq<char>>,
    id: Seq<char>,
)
    requires
        is_fresh_dir(made, name, made_then),
        made.contains(id),
    ensures
        name != s3_dir(id),
{
    let new = choose|new: Seq<char>|
        {
            &&& is_simple_v7(new)
            &&& name == #[trigger] s3_dir(new)
            &&& !made.contains(new)
            &&& made_then == made.insert(new)
        };
    law_s3_directories_are_apart(new, id);
}

/// An id that was made is made for good.
proof fn lemma_ids_stay_made(
    made: Seq<Set<Seq<char>>>,
    names: Seq<Seq<char>>,
    from: int,
    to: int,
    id: Seq<char>,
)
    requires
        made.len() == names.len() + 1,
        forall|i: int|
            #![trigger names[i]]
            0 <= i < names.len() ==> is_fresh_dir(made[i], names[i], made[i + 1]),
        0 <= from <= to < made.len(),
        made[from].contains(id),
    ensures
        made[to].contains(id),
    decreases to - from,
{
    if from < to {
        assert(is_fresh_dir(made[from], names[from], made[from + 1]));
        lemma_ids_stay_made(made, names, from + 1, to, id);
    }
}

/// The servers of a test have keys of their own: an S3 server, a database server and a stalling
/// server never have the same registry key, whatever the tests are called.
pub proof fn law_server_keys_are_apart(a: Seq<char>, b: Seq<char>)
    ensures
        s3_key(a) != db_key(b),
        s3_key(a) != stall_key(b),
        db_key(a) != stall_key(b),
{
    reveal_strlit("s3-");
    reveal_strlit("db-");
    reveal_strlit("stall-");
    assert(s3_key(a)[1] == '3');
    assert(db_key(a)[0] == 'd');
    assert(db_key(b)[0] == 'd');
    assert(s3_key(a)[0] == 's');
    assert(stall_key(b)[0] == 's');
    assert(stall_key(b)[1] == 't');
}

/// Each server of each test has a socket of its own.
pub proof fn law_servers_have_their_own_sockets(
    state: RegistryState,
    a: Seq<char>,
    b: Seq<char>,
)
    requires
        state.wf(),
        state.slots.contains_key(s3_key(a)),
        state.slots.contains_key(db_key(a)),
        state.slots.contains_key(stall_key(a)),
        state.slots.contains_key(s3_key(b)),
        state.slots.contains_key(db_key(b)),
        state.slots.contains_key(stall_key(b)),
    ensures
        state.slots[s3_key(a)] != state.slots[db_key(b)],
        state.slots[s3_key(a)] != state.slots[stall_key(b)],
        state.slots[db_key(a)] != state.slots[stall_key(b)],
        state.slots[s3_key(a)] == state.slots[s3_key(b)] <==> a == b,
        state.slots[db_key(a)] == state.slots[db_key(b)] <==> a == b,
        state.slots[stall_key(a)] == state.slots[stall_key(b)] <==> a == b,
{
    law_server_keys_are_apart(a, b);
    law_server_keys_are_unique(a, b);
    law_listeners_are_unique(state, s3_key(a), db_key(b));
    law_listeners_are_unique(state, s3_key(a), stall_key(b));
    law_listeners_are_unique(state, db_key(a), stall_key(b));
    law_listeners_are_unique(state, s3_key(a), s3_key(b));
    law_listeners_are_unique(state, db_key(a), db_key(b));
    law_listeners_are_unique(state, stall_key(a), stall_key(b));
}

/// An S3 server that is started again for the same test gets the port that it had, whatever was
/// started meanwhile.
pub proof fn law_s3_server_keeps_its_port(
    start: RegistryState,
    key: Seq<char>,
    port: u16,
    between: Seq<(Seq<char>, u16)>,
    later_port: u16,
)
    requires
        start.wf(),
        start.answers(s3_key(key), port),
    ensures
        ({
            let first = start.acquired(s3_key(key), port);
            let again = after_requests(first, between).acquired(s3_key(key), later_port);
            again.ports[again.slots[s3_key(key)]] == first.ports[first.slots[s3_key(key)]]
        }),
{
    law_restart_reuses_the_listener(start, s3_key(key), port, between, later_port);
}

/// S3 servers with different ids keep their objects in different directories.
pub proof fn law_s3_directories_are_apart(a: Seq<char>, b: Seq<char>)
    ensures
        s3_dir(a) == s3_dir(b) <==> a == b,
{
    assert(s3_dir(a).skip("s3s-"@.len() as int) =~= a);
    assert(s3_dir(b).skip("s3s-"@.len() as int) =~= b);
}

/// Different tests have different keys for the same kind of server.
pub proof fn law_server_keys_are_unique(a: Seq<char>, b: Seq<char>)
    ensures
        s3_key(a) == s3_key(b) <==> a == b,
        db_key(a) == db_key(b) <==> a == b,
        stall_key(a) == stall_key(b) <==> a == b,
{
    assert(s3_key(a).skip("s3-"@.len() as int) =~= a);
    assert(s3_key(b).skip("s3-"@.len() as int) =~= b);
    assert(db_key(a).skip("db-"@.len() as int) =~= a);
    assert(db_key(b).skip("db-"@.len() as int) =~= b);
    assert(stall_key(a).skip("stall-"@.len() as int) =~= a);
    assert(stall_key(b).skip("stall-"@.len() as int) =~= b);
}

/// A registry key is the mark of the server and the whole name of the test.
pub proof fn law_keys_hold_the_whole_name(key: Seq<char>)
    ensures
        "s3-"@.is_prefix_of(s3_key(key)) && s3_key(key).skip(3) == key,
        "db-"@.is_prefix_of(db_key(key)) && db_key(key).skip(3) == key,
        "stall-"@.is_prefix_of(stall_key(key)) && stall_key(key).skip(6) == key,
        "s3s-"@.is_prefix_of(s3_dir(key)) && s3_dir(key).skip(4) == key,
{
    reveal_strlit("s3-");
    reveal_strlit("db-");
    reveal_strlit("stall-");
    reveal_strlit("s3s-");
    assert(s3_key(key).skip(3) =~= key);
    assert(db_key(key).skip(3) =~= key);
    assert(stall_key(key).skip(6) =~= key);
    assert(s3_dir(key).skip(4) =~= key);
    assert(s3_key(key).take(3) =~= "s3-"@);
    assert(db_key(key).take(3) =~= "db-"@);
    assert(stall_key(key).take(6) =~= "stall-"@);
    assert(s3_dir(key).take(4) =~= "s3s-"@);
}

/// An address ends in its port, in decimal, so servers on different ports have different
/// addresses.
pub proof fn law_addresses_end_in_the_port(port: nat)
    ensures
        exists|digits: Seq<char>| #[trigger]
            is_numeral(digits, port as int) && loopback(port) == "http://127.0.0.1:"@ + digits,
        exists|digits: Seq<char>| #[trigger]
            is_numeral(digits, port as int) && localhost(port) == "http://localhost:"@ + digits,
{
    law_decimal_is_the_numeral(port);
    assert(is_numeral(decimal(port), port as int));
}

/// The name of a fresh directory is `s3s-` and an id of hexadecimal digits, with the digit of its
/// version in its place.
pub proof fn law_fresh_names_have_their_form(
    made: Set<Seq<char>>,
    name: Seq<char>,
    made_then: Set<Seq<char>>,
)
    requires
        is_fresh_dir(made, name, made_then),
    ensures
        name.len() == 36,
        "s3s-"@.is_prefix_of(name),
        forall|i: int|
            4 <= i < 36 ==> '0' <= #[trigger] name[i] <= '9' || 'a' <= name[i] <= 'f',
        name[16] == '7',
        !made.contains(name.skip(4)),
        made_then == made.insert(name.skip(4)),
{
    reveal_strlit("s3s-");
    let id = choose|id: Seq<char>|
        {
            &&& is_simple_v7(id)
            &&& name == #[trigger] s3_dir(id)
            &&& !made.contains(id)
            &&& made_then == made.insert(id)
        };
    law_keys_hold_the_whole_name(id);
    assert forall|i: int| 4 <= i < 36 implies '0' <= #[trigger] name[i] <= '9' || 'a' <= name[i]
        <= 'f' by {
        assert(name[i] == id[i - 4]);
    }
    assert(name[16] == id[12]);
}

} // verus!
