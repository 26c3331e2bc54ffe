//! The private chat room the run reports into.
//!
//! Each pair of user account and bot account gets a private room of its own,
//! addressed by an alias derived deterministically from the package name, the
//! chain and the two accounts, so that every run of the same configuration
//! finds the same room.

use vstd::prelude::*;
use vstd::utf8::encode_utf8;

verus! {

/// The largest byte input handed to the alias encoder; longer inputs would
/// overflow the encoder's output-size arithmetic.
pub const MAX_ALIAS_INPUT: usize = 0xBFFF_FF00;

/// What the standard alphabet renders the given bytes as.
pub uninterp spec fn base64_of(bytes: Seq<u8>) -> Seq<char>;

/// Relies on base64::encode: the standard alphabet with `=` padding, four
/// output characters for every started group of three input bytes; the
/// result is a function of the bytes alone.
#[verifier::external_body]
fn base64_encode(bytes: &Vec<u8>) -> (r: String)
    requires
        bytes@.len() <= MAX_ALIAS_INPUT,
    ensures
        r@ == base64_of(bytes@),
        r@.len() == 4 * ((bytes@.len() + 2) / 3),
{
    base64::encode(bytes)
}

/// The text the room alias is derived from: the four parts joined by `/`.
pub open spec fn alias_source(
    pkg: Seq<char>,
    chain: Seq<char>,
    user: Seq<char>,
    bot: Seq<char>,
) -> Seq<char> {
    (((((pkg + "/"@) + chain) + "/"@) + user) + "/"@) + bot
}

/// The alias name of the private room for this configuration: the joined
/// parts rendered through the alias encoder.  Inputs beyond the encoder's
/// capacity yield the empty alias.
pub fn define_private_room_alias_name(
    pkg_name: &str,
    chain_name: &str,
    matrix_user: &str,
    matrix_bot_user: &str,
) -> (r: String)
    ensures
        ({
            let src = encode_utf8(
                alias_source(pkg_name@, chain_name@, matrix_user@, matrix_bot_user@),
            );
            if src.len() <= MAX_ALIAS_INPUT {
                r@ == base64_of(src)
            } else {
                r@.len() == 0
            }
        }),
{
    let joined = String::from_str(pkg_name).concat("/").concat(chain_name).concat("/").concat(
        matrix_user,
    ).concat("/").concat(matrix_bot_user);
    let bytes = joined.as_str().as_bytes_vec();
    if bytes.len() <= MAX_ALIAS_INPUT {
        base64_encode(&bytes)
    } else {
        String::new()
    }
}

/// The suffix of `s` after its last colon: the whole of `s` when it has no
/// colon, empty when it ends with one.
pub open spec fn after_last_colon(s: Seq<char>) -> Seq<char>
    decreases s.len(),
{
    if s.len() == 0 {
        Seq::empty()
    } else if s.last() == ':' {
        Seq::empty()
    } else {
        after_last_colon(s.drop_last()).push(s.last())
    }
}

proof fn lemma_alc_found(s: Seq<char>, p: int)
    requires
        0 <= p < s.len(),
        s[p] == ':',
        forall|k: int| p < k < s.len() ==> s[k] != ':',
    ensures
        after_last_colon(s) == s.subrange(p + 1, s.len() as int),
    decreases s.len(),
{
    let n = s.len() as int;
    if p == n - 1 {
        assert(s.subrange(p + 1, n) =~= Seq::<char>::empty());
    } else {
        let dl = s.drop_last();
        assert(s.last() != ':');
        assert(forall|k: int| p < k < dl.len() ==> dl[k] != ':');
        lemma_alc_found(dl, p);
        assert(dl.subrange(p + 1, n - 1) =~= s.subrange(p + 1, n - 1));
        assert(s.subrange(p + 1, n - 1).push(s[n - 1]) =~= s.subrange(p + 1, n));
    }
}

proof fn lemma_alc_none(s: Seq<char>)
    requires
        forall|k: int| 0 <= k < s.len() ==> s[k] != ':',
    ensures
        after_last_colon(s) == s,
    decreases s.len(),
{
    if s.len() == 0 {
        assert(s =~= Seq::<char>::empty());
    } else {
        let dl = s.drop_last();
        lemma_alc_none(dl);
        assert(dl.push(s.last()) =~= s);
    }
}

/// The server part of a user id: everything after the last colon.
fn server_of(s: &str) -> (r: String)
    ensures
        r@ == after_last_colon(s@),
{
    let n = s.unicode_len();
    let mut i: usize = 0;
    let mut pos: Option<usize> = None;
    while i < n
        invariant
            n == s@.len(),
            i <= n,
            match pos {
                Some(p) => p < i && s@[p as int] == ':' && forall|k: int|
                    p < k < i ==> s@[k] != ':',
                None => forall|k: int| 0 <= k < i ==> s@[k] != ':',
            },
        decreases n - i,
    {
        if s.get_char(i) == ':' {
            pos = Some(i);
        }
        i = i + 1;
    }
    match pos {
        Some(p) => {
            proof {
                lemma_alc_found(s@, p as int);
            }
            s.substring_char(p + 1, n).to_owned()
        },
        None => {
            proof {
                lemma_alc_none(s@);
            }
            s.to_owned()
        },
    }
}

/// A chat room, addressed by alias until its id is known.
#[derive(Debug)]
pub struct Room {
    pub room_id: String,
    pub servers: Vec<String>,
    pub room_alias: String,
    pub room_alias_name: String,
}

impl Room {
    /// The private room of this configuration: its alias name is derived
    /// from the package, chain and accounts, and its full alias qualifies
    /// that name with the bot account's server.
    pub fn new_private(
        pkg_name: &str,
        chain_name: &str,
        matrix_user: &str,
        matrix_bot_user: &str,
    ) -> (r: Room)
        ensures
            ({
                let src = encode_utf8(
                    alias_source(pkg_name@, chain_name@, matrix_user@, matrix_bot_user@),
                );
                let alias = if src.len() <= MAX_ALIAS_INPUT {
                    base64_of(src)
                } else {
                    Seq::<char>::empty()
                };
                r.room_id@.len() == 0 && r.servers@.len() == 0 && r.room_alias_name@ == alias
                    && r.room_alias@ == (("#"@ + alias) + ":"@) + after_last_colon(
                    matrix_bot_user@,
                )
            }),
    {
        let room_alias_name = define_private_room_alias_name(
            pkg_name,
            chain_name,
            matrix_user,
            matrix_bot_user,
        );
        let server = server_of(matrix_bot_user);
        let room_alias = String::from_str("#").concat(room_alias_name.as_str()).concat(
            ":",
        ).concat(server.as_str());
        proof {
            let src = encode_utf8(
                alias_source(pkg_name@, chain_name@, matrix_user@, matrix_bot_user@),
            );
            if !(src.len() <= MAX_ALIAS_INPUT) {
                assert(room_alias_name@ =~= Seq::<char>::empty());
            }
        }
        Room { room_id: String::new(), servers: Vec::new(), room_alias, room_alias_name }
    }
}

} // verus!
