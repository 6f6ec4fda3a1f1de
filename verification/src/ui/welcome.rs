//! The text of the window that greets a user who has no podcasts yet.

use vstd::prelude::*;
use vstd::string::StringExecFns;

verus! {

/// `key` between quotation marks.
pub open spec fn quoted(key: Seq<char>) -> Seq<char> {
    seq!['"'] + key + seq!['"']
}

/// The first `n` of three or more keys, as they are listed: each after a
/// comma, and each but the last of all keys after "or".
pub open spec fn long_key_list(keys: Seq<Seq<char>>, n: int) -> Seq<char>
    decreases n,
{
    if n <= 0 {
        Seq::empty()
    } else {
        let before = long_key_list(keys, n - 1);
        if n == keys.len() {
            before + seq![',', ' '] + quoted(keys[n - 1])
        } else {
            before + seq![',', ' ', 'o', 'r', ' '] + quoted(keys[n - 1])
        }
    }
}

/// The keys of an action as the welcome text names them.
pub open spec fn key_list(keys: Seq<Seq<char>>) -> Seq<char> {
    if keys.len() == 0 {
        seq!['<', 'm', 'i', 's', 's', 'i', 'n', 'g', '>']
    } else if keys.len() == 1 {
        quoted(keys[0])
    } else if keys.len() == 2 {
        quoted(keys[0]) + seq![' ', 'o', 'r', ' '] + quoted(keys[1])
    } else {
        long_key_list(keys, keys.len() as int)
    }
}

/// The texts of `keys`.
pub open spec fn texts(keys: Seq<String>) -> Seq<Seq<char>> {
    Seq::new(keys.len(), |i: int| keys[i]@)
}

fn push_quoted(out: &mut String, key: &String)
    ensures
        final(out)@ == old(out)@ + quoted(key@),
{
    out.append("\"");
    out.append(key.as_str());
    out.append("\"");
    proof {
        reveal_strlit("\"");
        assert(out@ =~= old(out)@ + quoted(key@));
    }
}

/// Names the keys of an action for the welcome text.
pub fn format_keys(keys: &Vec<String>) -> (r: String)
    ensures
        r@ == key_list(texts(keys@)),
{
    let ghost all = texts(keys@);
    let mut out = String::new();
    if keys.len() == 0 {
        out.append("<missing>");
        proof {
            reveal_strlit("<missing>");
            assert(out@ =~= key_list(all));
        }
    } else if keys.len() == 1 {
        push_quoted(&mut out, &keys[0]);
        assert(out@ =~= key_list(all));
    } else if keys.len() == 2 {
        push_quoted(&mut out, &keys[0]);
        out.append(" or ");
        push_quoted(&mut out, &keys[1]);
        proof {
            reveal_strlit(" or ");
            assert(out@ =~= key_list(all));
        }
    } else {
        let mut i: usize = 0;
        while i < keys.len()
            invariant
                i <= keys@.len(),
                all == texts(keys@),
                out@ == long_key_list(all, i as int),
            decreases keys@.len() - i,
        {
            if i == keys.len() - 1 {
                out.append(", ");
            } else {
                out.append(", or ");
            }
            push_quoted(&mut out, &keys[i]);
            i = i + 1;
            proof {
                reveal_strlit(", ");
                reveal_strlit(", or ");
                assert(out@ =~= long_key_list(all, i as int));
            }
        }
    }
    out
}

/// The sentence of the welcome text that tells how to add a feed and how to
/// quit.
pub open spec fn welcome_hint(add_keys: Seq<Seq<char>>, quit_keys: Seq<Seq<char>>) -> Seq<char> {
    "Your podcast list is currently empty. Press "@ + key_list(add_keys)
        + " to add a new podcast feed, or "@ + key_list(quit_keys) + " to quit."@
}

/// Composes the sentence that tells how to add a feed and how to quit.
pub fn format_welcome_hint(add_keys: &Vec<String>, quit_keys: &Vec<String>) -> (r: String)
    ensures
        r@ == welcome_hint(texts(add_keys@), texts(quit_keys@)),
{
    let add = format_keys(add_keys);
    let quit = format_keys(quit_keys);
    let mut out = String::from_str("Your podcast list is currently empty. Press ");
    out.append(add.as_str());
    out.append(" to add a new podcast feed, or ");
    out.append(quit.as_str());
    out.append(" to quit.");
    assert(out@ =~= welcome_hint(texts(add_keys@), texts(quit_keys@)));
    out
}

} // verus!
