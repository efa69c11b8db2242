//! The machine identity that sealing keys are derived from, chosen among what
//! the application read from the platform.

use vstd::prelude::*;

use crate::keyed::{index_of_first, is_first, lemma_index_of_first_at, lemma_index_of_first_spec};
use crate::text::{chars_of, concat, contains_str, contains_text, owned, trim, trimmed};

verus! {

/// The parts of `s` between occurrences of `c`, in order (`str::split`).
pub open spec fn fields(s: Seq<char>, c: char) -> Seq<Seq<char>>
    decreases s.len(),
{
    match index_of_first(s, c) {
        Some(i) => if 0 <= i < s.len() {
            seq![s.take(i)] + fields(s.skip(i + 1), c)
        } else {
            seq![s]
        },
        None => seq![s],
    }
}

/// `l` without one final carriage return.
pub open spec fn strip_cr(l: Seq<char>) -> Seq<char> {
    if l.len() > 0 && l.last() == '\r' {
        l.drop_last()
    } else {
        l
    }
}

/// The lines of `s` (`str::lines`): split at each `\n`, a `\r` just before it
/// dropped, and no empty line after a final `\n`.
pub open spec fn text_lines(s: Seq<char>) -> Seq<Seq<char>>
    decreases s.len(),
{
    if s.len() == 0 {
        Seq::empty()
    } else {
        match index_of_first(s, '\n') {
            Some(i) => if 0 <= i < s.len() {
                seq![strip_cr(s.take(i))] + text_lines(s.skip(i + 1))
            } else {
                seq![s]
            },
            None => seq![s],
        }
    }
}

/// The key that marks the platform UUID in the output of `ioreg`.
pub const PLATFORM_UUID_KEY: &'static str = "IOPlatformUUID";

/// The platform UUID in lines of `ioreg` output: the fourth `"`-separated
/// field of the first line that names the key and has such a field.
pub open spec fn uuid_in_lines(ls: Seq<Seq<char>>) -> Option<Seq<char>>
    decreases ls.len(),
{
    if ls.len() == 0 {
        None
    } else if contains_text(ls[0], PLATFORM_UUID_KEY@) && fields(ls[0], '"').len() > 3 {
        Some(fields(ls[0], '"')[3])
    } else {
        uuid_in_lines(ls.skip(1))
    }
}

/// The text before and after the first `c` in `s`, if there is one.
fn split_at_first(s: &str, c: char) -> (r: Option<(String, String)>)
    ensures
        match index_of_first(s@, c) {
            Some(i) => r matches Some((a, b)) && 0 <= i < s@.len() && a@ == s@.take(i) && b@ == s@.skip(
                i + 1,
            ),
            None => r is None,
        },
{
    let cs = chars_of(&owned(s));
    let mut i: usize = 0;
    while i < cs.len()
        invariant
            cs@ == s@,
            i <= cs@.len(),
            forall|j: int| 0 <= j < i ==> cs@[j] != c,
        decreases cs.len() - i,
    {
        if cs[i] == c {
            proof {
                assert(is_first(s@, c, i as int));
                lemma_index_of_first_at(s@, c, i as int);
            }
            let a = owned(s.substring_char(0, i));
            let b = owned(s.substring_char(i + 1, cs.len()));
            assert(s@.subrange(0, i as int) =~= s@.take(i as int));
            assert(s@.subrange(i + 1, s@.len() as int) =~= s@.skip(i + 1));
            return Some((a, b));
        }
        i = i + 1;
    }
    proof {
        lemma_index_of_first_spec(s@, c);
        if s@.contains(c) {
            let w = choose|w: int| 0 <= w < s@.len() && s@[w] == c;
            assert(cs@[w] != c);
        }
    }
    None
}

/// `l` without one final carriage return.
fn without_cr(l: &str) -> (r: String)
    ensures
        r@ == strip_cr(l@),
{
    let n = l.unicode_len();
    if n > 0 && l.get_char(n - 1) == '\r' {
        let r = owned(l.substring_char(0, n - 1));
        assert(l@.subrange(0, n - 1) =~= l@.drop_last());
        r
    } else {
        owned(l)
    }
}

/// One step of splitting `s` at `c`: the part before the first `c`, then the
/// fields of the rest; or `s` alone without a `c`.
proof fn lemma_fields_step(s: Seq<char>, c: char)
    ensures
        match index_of_first(s, c) {
            Some(i) => 0 <= i < s.len() && fields(s, c) == seq![s.take(i)] + fields(s.skip(i + 1), c),
            None => fields(s, c) == seq![s],
        },
        fields(s, c).len() >= 1,
{
    lemma_index_of_first_spec(s, c);
}

/// The fourth `"`-separated field of `l`, if it has one.
fn fourth_field(l: &str) -> (r: Option<String>)
    ensures
        match r {
            Some(f) => fields(l@, '"').len() > 3 && f@ == fields(l@, '"')[3],
            None => fields(l@, '"').len() <= 3,
        },
{
    proof {
        lemma_fields_step(l@, '"');
    }
    let s1 = match split_at_first(l, '"') {
        Some((_, b)) => b,
        None => {
            return None;
        },
    };
    proof {
        lemma_fields_step(s1@, '"');
    }
    let s2 = match split_at_first(s1.as_str(), '"') {
        Some((_, b)) => b,
        None => {
            return None;
        },
    };
    proof {
        lemma_fields_step(s2@, '"');
    }
    let s3 = match split_at_first(s2.as_str(), '"') {
        Some((_, b)) => b,
        None => {
            return None;
        },
    };
    proof {
        lemma_fields_step(s3@, '"');
    }
    match split_at_first(s3.as_str(), '"') {
        Some((a, _)) => Some(a),
        None => Some(s3),
    }
}

/// One step of `text_lines`: the first line, then the lines of the rest.
proof fn lemma_lines_step(s: Seq<char>)
    requires
        s.len() > 0,
    ensures
        match index_of_first(s, '\n') {
            Some(i) => 0 <= i < s.len() && text_lines(s) == seq![strip_cr(s.take(i))] + text_lines(
                s.skip(i + 1),
            ),
            None => text_lines(s) == seq![s],
        },
{
    lemma_index_of_first_spec(s, '\n');
}

/// The UUID search looks at the first line, then at the others.
proof fn lemma_uuid_step(l: Seq<char>, ls: Seq<Seq<char>>)
    ensures
        uuid_in_lines(seq![l] + ls) == (if contains_text(l, PLATFORM_UUID_KEY@) && fields(l, '"').len() > 3 {
            Some(fields(l, '"')[3])
        } else {
            uuid_in_lines(ls)
        }),
{
    assert((seq![l] + ls)[0] == l);
    assert((seq![l] + ls).skip(1) =~= ls);
}

/// The platform UUID in the output of `ioreg -rd1 -c IOPlatformExpertDevice`:
/// the fourth `"`-separated field of the first line that names
/// `IOPlatformUUID` and has one.
pub fn platform_uuid_in(output: &str) -> (r: Option<String>)
    ensures
        match r {
            Some(u) => uuid_in_lines(text_lines(output@)) == Some(u@),
            None => uuid_in_lines(text_lines(output@)) is None,
        },
{
    let key = owned(PLATFORM_UUID_KEY);
    let mut rest = owned(output);
    while rest.as_str().unicode_len() > 0
        invariant
            uuid_in_lines(text_lines(output@)) == uuid_in_lines(text_lines(rest@)),
            key@ == PLATFORM_UUID_KEY@,
        decreases rest@.len(),
    {
        proof {
            lemma_lines_step(rest@);
        }
        let (line, tail) = match split_at_first(rest.as_str(), '\n') {
            Some((a, b)) => (without_cr(a.as_str()), b),
            None => (owned(rest.as_str()), owned("")),
        };
        proof {
            reveal_strlit("");
            if index_of_first(rest@, '\n') is None {
                assert(tail@.len() == 0);
                assert(text_lines(rest@) =~= seq![line@] + text_lines(tail@));
            }
            lemma_uuid_step(line@, text_lines(tail@));
        }
        if contains_str(&line, &key) {
            match fourth_field(line.as_str()) {
                Some(f) => {
                    return Some(f);
                },
                None => {},
            }
        }
        rest = tail;
    }
    None
}

/// Stands for a host name that could not be read.
pub const UNKNOWN_HOST: &'static str = "unknown";

/// The identity from the machine-id files, in the order they are tried
/// (`/etc/machine-id`, then `/var/lib/dbus/machine-id`): the content of the
/// first one that could be read, trimmed; `None` when neither could be.
pub fn machine_id_from_files(etc_machine_id: Option<String>, dbus_machine_id: Option<String>) -> (r:
    Option<String>)
    ensures
        match etc_machine_id {
            Some(t) => r matches Some(id) && id@ == trimmed(t@),
            None => match dbus_machine_id {
                Some(t) => r matches Some(id) && id@ == trimmed(t@),
                None => r is None,
            },
        },
{
    match etc_machine_id {
        Some(t) => Some(owned(trim(t.as_str()))),
        None => match dbus_machine_id {
            Some(t) => Some(owned(trim(t.as_str()))),
            None => None,
        },
    }
}

/// The identity when the platform gives none: the user name, `-`, and the
/// host name (`unknown` when it could not be read).
pub fn fallback_machine_id(username: &str, hostname: Option<String>) -> (r: String)
    ensures
        r@ == username@ + "-"@ + (match hostname {
            Some(h) => h@,
            None => UNKNOWN_HOST@,
        }),
{
    let user_dash = concat(username, "-");
    match hostname {
        Some(h) => concat(user_dash.as_str(), h.as_str()),
        None => concat(user_dash.as_str(), UNKNOWN_HOST),
    }
}

} // verus!
