//! The lock file that the client writes into its install directory:
//! `name:pid:port:token:protocol`, fields separated by colons.
use vstd::prelude::*;

use crate::error::Error;

verus! {

/// The name of the lock file inside the install directory.
pub const LOCK_FILE_NAME: &'static str = "lockfile";

/// The fields of `s` separated by `:`; there is always at least one.
pub open spec fn split_fields(s: Seq<char>) -> Seq<Seq<char>>
    decreases s.len(),
{
    if s.len() == 0 {
        seq![seq![]]
    } else {
        let prev = split_fields(s.drop_last());
        if s.last() == ':' {
            prev.push(seq![])
        } else {
            prev.update(prev.len() - 1, prev.last().push(s.last()))
        }
    }
}

/// What the lock file `s` gives: field 2 is the port and field 3 the token.
pub open spec fn parse_lock_spec(s: Seq<char>) -> Result<(Seq<char>, Seq<char>), Error> {
    let f = split_fields(s);
    if f.len() < 3 {
        Err(Error::PortNotFound)
    } else if f.len() < 4 {
        Err(Error::AuthTokenNotFound)
    } else {
        Ok((f[2], f[3]))
    }
}

/// Splitting gives at least one field.
proof fn lemma_split_fields_nonempty(s: Seq<char>)
    ensures
        split_fields(s).len() >= 1,
    decreases s.len(),
{
    if s.len() > 0 {
        lemma_split_fields_nonempty(s.drop_last());
    }
}

/// Splits the contents of a lock file into its port and its auth token.
pub fn parse_lock_file(contents: &str) -> (r: Result<(String, String), Error>)
    ensures
        match parse_lock_spec(contents@) {
            Ok((port, token)) => r is Ok && r->Ok_0.0@ == port && r->Ok_0.1@ == token,
            Err(e) => r == Err::<(String, String), Error>(e),
        },
{
    let n = contents.unicode_len();
    let mut fields: Vec<String> = Vec::new();
    let mut start: usize = 0;
    let mut i: usize = 0;
    assert(contents@.take(0) =~= seq![]);
    assert(contents@.subrange(0, 0) =~= seq![]);
    assert(fields@.map_values(|f: String| f@).push(seq![]) =~= seq![seq![]]);
    while i < n
        invariant
            n == contents@.len(),
            start <= i <= n,
            split_fields(contents@.take(i as int)) == fields@.map_values(|f: String| f@).push(
                contents@.subrange(start as int, i as int),
            ),
        decreases n - i,
    {
        let c = contents.get_char(i);
        let ghost before = contents@.take(i as int);
        assert(contents@.take(i + 1).drop_last() =~= before);
        proof {
            lemma_split_fields_nonempty(before);
        }
        let ghost done = fields@.map_values(|f: String| f@);
        if c == ':' {
            let field = contents.substring_char(start, i).to_owned();
            fields.push(field);
            start = i + 1;
            assert(fields@.map_values(|f: String| f@) =~= done.push(field@));
            assert(contents@.subrange(start as int, i + 1) =~= seq![]);
            assert(fields@.map_values(|f: String| f@).push(contents@.subrange(start as int, i + 1))
                =~= split_fields(before).push(seq![]));
        } else {
            assert(contents@.subrange(start as int, i + 1) =~= contents@.subrange(
                start as int,
                i as int,
            ).push(c));
            assert(fields@.map_values(|f: String| f@).push(contents@.subrange(start as int, i + 1))
                =~= split_fields(before).update(
                split_fields(before).len() - 1,
                split_fields(before).last().push(c),
            ));
        }
        i = i + 1;
    }
    let last = contents.substring_char(start, n).to_owned();
    fields.push(last);
    assert(contents@.take(n as int) =~= contents@);
    assert(fields@.map_values(|f: String| f@) =~= split_fields(contents@));
    if fields.len() < 3 {
        Err(Error::PortNotFound)
    } else if fields.len() < 4 {
        Err(Error::AuthTokenNotFound)
    } else {
        let port = fields[2].clone();
        let token = fields[3].clone();
        assert(port@ == split_fields(contents@)[2]);
        assert(token@ == split_fields(contents@)[3]);
        Ok((port, token))
    }
}

} // verus!
