//! What the credential operations promise across calls: a saved password is
//! what a later lookup unseals, an operation on one account or provider leaves
//! the others alone, and a provider name never occurs twice.

use vstd::prelude::*;
use vstd::utf8::encode_utf8;

use crate::crypto::{base64_standard_decoded, sha256_digest};

use crate::credentials::{
    deleted_provider, deleted_user, entries_in, entries_of, find_entry, first_with, found_seals,
    derived_key, provider_index, provider_names, providers_unique, saved, seals, touched, upserted, usernames,
    with_secret_of, without_provider, without_user, EntryView, StoreView, sealed_text, sealed_with,
    unsealed, nonce_fits, Unsealed,
};
use crate::keyed::{index_of_first, lemma_contains_push, lemma_index_of_first_push, lemma_index_of_first_spec};

verus! {

proof fn lemma_first_with_empty(u: Seq<char>)
    ensures
        first_with(Seq::<EntryView>::empty(), u) is None,
{
    lemma_index_of_first_spec(usernames(Seq::<EntryView>::empty()), u);
}

proof fn lemma_first_with_push(es: Seq<EntryView>, x: EntryView, u: Seq<char>)
    ensures
        first_with(es.push(x), u) == (match first_with(es, u) {
            Some(f) => Some(f),
            None => if x.username == u {
                Some(x)
            } else {
                None
            },
        }),
{
    assert(usernames(es.push(x)) =~= usernames(es).push(x.username));
    lemma_index_of_first_push(usernames(es), x.username, u);
    lemma_index_of_first_spec(usernames(es), u);
}

proof fn lemma_first_with_update(es: Seq<EntryView>, j: int, f: EntryView, u: Seq<char>)
    requires
        0 <= j < es.len(),
        f.username == es[j].username,
    ensures
        first_with(es.update(j, f), u) == if index_of_first(usernames(es), u) == Some(j) {
            Some(f)
        } else {
            first_with(es, u)
        },
{
    assert(usernames(es.update(j, f)) =~= usernames(es));
    lemma_index_of_first_spec(usernames(es), u);
}

proof fn lemma_entries_in_push(
    ps: Seq<(Seq<char>, Seq<EntryView>)>,
    x: (Seq<char>, Seq<EntryView>),
    p: Seq<char>,
)
    ensures
        entries_in(ps.push(x), p) == (match index_of_first(provider_names(ps), p) {
            Some(i) => ps[i].1,
            None => if x.0 == p {
                x.1
            } else {
                Seq::empty()
            },
        }),
{
    assert(provider_names(ps.push(x)) =~= provider_names(ps).push(x.0));
    lemma_index_of_first_push(provider_names(ps), x.0, p);
    lemma_index_of_first_spec(provider_names(ps), p);
}

proof fn lemma_entries_in_update(
    ps: Seq<(Seq<char>, Seq<EntryView>)>,
    i: int,
    x: (Seq<char>, Seq<EntryView>),
    p: Seq<char>,
)
    requires
        0 <= i < ps.len(),
        x.0 == ps[i].0,
    ensures
        entries_in(ps.update(i, x), p) == if index_of_first(provider_names(ps), p) == Some(i) {
            x.1
        } else {
            entries_in(ps, p)
        },
{
    assert(provider_names(ps.update(i, x)) =~= provider_names(ps));
    lemma_index_of_first_spec(provider_names(ps), p);
}

proof fn lemma_provider_at_index(sv: StoreView, p: Seq<char>)
    ensures
        provider_index(sv, p) matches Some(i) ==> 0 <= i < sv.providers.len() && sv.providers[i].0
            == p,
{
    lemma_index_of_first_spec(provider_names(sv.providers), p);
}

proof fn lemma_without_user_first_with(es: Seq<EntryView>, u: Seq<char>, v: Seq<char>)
    ensures
        first_with(without_user(es, u), v) == if v == u {
            None
        } else {
            first_with(es, v)
        },
    decreases es.len(),
{
    if es.len() == 0 {
        lemma_first_with_empty(v);
    } else {
        let init = es.drop_last();
        let x = es.last();
        lemma_without_user_first_with(init, u, v);
        assert(es =~= init.push(x));
        lemma_first_with_push(init, x, v);
        if x.username != u {
            lemma_first_with_push(without_user(init, u), x, v);
        }
    }
}

proof fn lemma_without_provider_entries(
    ps: Seq<(Seq<char>, Seq<EntryView>)>,
    p: Seq<char>,
    q: Seq<char>,
)
    ensures
        entries_in(without_provider(ps, p), q) == if q == p {
            Seq::<EntryView>::empty()
        } else {
            entries_in(ps, q)
        },
        !provider_names(without_provider(ps, p)).contains(p),
        q != p ==> (provider_names(without_provider(ps, p)).contains(q) <==> provider_names(
            ps,
        ).contains(q)),
    decreases ps.len(),
{
    if ps.len() == 0 {
        lemma_index_of_first_spec(provider_names(ps), q);
    } else {
        let init = ps.drop_last();
        let x = ps.last();
        let w = without_provider(init, p);
        lemma_without_provider_entries(init, p, q);
        assert(ps =~= init.push(x));
        assert(provider_names(ps) =~= provider_names(init).push(x.0));
        lemma_contains_push(provider_names(init), x.0, q);
        lemma_entries_in_push(init, x, q);
        lemma_index_of_first_spec(provider_names(init), q);
        lemma_index_of_first_spec(provider_names(w), q);
        if x.0 != p {
            assert(provider_names(w.push(x)) =~= provider_names(w).push(x.0));
            lemma_contains_push(provider_names(w), x.0, q);
            lemma_contains_push(provider_names(w), x.0, p);
            lemma_entries_in_push(w, x, q);
        }
    }
}

proof fn lemma_without_provider_names(ps: Seq<(Seq<char>, Seq<EntryView>)>, p: Seq<char>)
    ensures
        forall|k: Seq<char>|
            provider_names(without_provider(ps, p)).contains(k) ==> provider_names(ps).contains(k),
        provider_names(ps).no_duplicates() ==> provider_names(
            without_provider(ps, p),
        ).no_duplicates(),
    decreases ps.len(),
{
    if ps.len() == 0 {
        assert(provider_names(without_provider(ps, p)) =~= Seq::<Seq<char>>::empty());
        assert forall|k: Seq<char>| !provider_names(without_provider(ps, p)).contains(k) by {}
    } else {
        let init = ps.drop_last();
        let x = ps.last();
        let w = without_provider(init, p);
        lemma_without_provider_names(init, p);
        assert(ps =~= init.push(x));
        assert(provider_names(ps) =~= provider_names(init).push(x.0));
        assert forall|k: Seq<char>|
            provider_names(without_provider(ps, p)).contains(k) implies provider_names(ps).contains(
            k,
        ) by {
            lemma_contains_push(provider_names(init), x.0, k);
            if x.0 != p {
                assert(without_provider(ps, p) == w.push(x));
                assert(provider_names(w.push(x)) =~= provider_names(w).push(x.0));
                lemma_contains_push(provider_names(w), x.0, k);
                if provider_names(w).contains(k) {
                    assert(provider_names(init).contains(k));
                }
            } else {
                assert(without_provider(ps, p) == w);
            }
        }
        if provider_names(ps).no_duplicates() {
            assert(provider_names(init).no_duplicates()) by {
                assert forall|a: int, b: int|
                    0 <= a < provider_names(init).len() && 0 <= b < provider_names(init).len() && a
                        != b implies provider_names(init)[a] != provider_names(init)[b] by {
                    assert(provider_names(init)[a] == provider_names(ps)[a]);
                    assert(provider_names(init)[b] == provider_names(ps)[b]);
                }
            }
            if x.0 != p {
                assert(provider_names(w.push(x)) =~= provider_names(w).push(x.0));
                assert(!provider_names(w).contains(x.0)) by {
                    if provider_names(w).contains(x.0) {
                        assert(provider_names(init).contains(x.0));
                        let t = choose|t: int| 0 <= t < provider_names(init).len() && provider_names(init)[t] == x.0;
                        assert(provider_names(ps)[t] == provider_names(ps)[init.len() as int]);
                    }
                }
                assert forall|a: int, b: int|
                    0 <= a < provider_names(w.push(x)).len() && 0 <= b < provider_names(w.push(x)).len() && a
                        != b implies provider_names(w.push(x))[a] != provider_names(w.push(x))[b] by {
                    if a == w.len() {
                        assert(provider_names(w)[b] == provider_names(w.push(x))[b]);
                    } else if b == w.len() {
                        assert(provider_names(w)[a] == provider_names(w.push(x))[a]);
                    }
                }
            }
        }
    }
}

/// A password sealed under a key opens to itself under that key, the empty and
/// non-ASCII passwords included: its nonce text decodes to 12 bytes, and its
/// ciphertext text decodes to the password's UTF-8 bytes plus the 16-byte tag.
pub proof fn law_sealed_password_opens(key: Seq<u8>, enc: Seq<char>, nonce: Seq<char>, password: Seq<char>)
    requires
        sealed_text(key, enc, nonce, password),
    ensures
        unsealed(key, enc, nonce) == Unsealed::Password(password),
        nonce_fits(enc, nonce),
        base64_standard_decoded(nonce) matches Some(n) && n.len() == 12,
        base64_standard_decoded(enc) matches Some(c) && c.len() == encode_utf8(password).len() + 16,
{
    broadcast use vstd::utf8::encode_utf8_decode_utf8, vstd::utf8::encode_utf8_valid_utf8;

    let n = choose|n: Seq<u8>| #[trigger] sealed_with(key, enc, nonce, password, n);
    assert(sealed_with(key, enc, nonce, password, n));
}

/// A saved password is what a lookup of the same account then finds: the entry
/// holds the saved sealed password, nonce and display name.
pub proof fn law_saved_entry_is_found(
    key: Seq<u8>,
    sv: StoreView,
    provider: Seq<char>,
    e: EntryView,
    password: Seq<char>,
)
    requires
        seals(key, e, password),
    ensures
        find_entry(saved(sv, provider, e), provider, e.username) matches Some(f) && f.username
            == e.username && f.encrypted_password == e.encrypted_password && f.nonce == e.nonce
            && f.display_name == e.display_name,
        found_seals(key, saved(sv, provider, e), provider, e.username, password),
{
    lemma_provider_at_index(sv, provider);
    let ps = sv.providers;
    match provider_index(sv, provider) {
        Some(i) => {
            let es = ps[i].1;
            lemma_entries_in_update(ps, i, (provider, upserted(es, e)), provider);
            lemma_index_of_first_spec(usernames(es), e.username);
            match index_of_first(usernames(es), e.username) {
                Some(j) => {
                    lemma_first_with_update(es, j, with_secret_of(es[j], e), e.username);
                },
                None => {
                    lemma_first_with_push(es, e, e.username);
                },
            }
        },
        None => {
            lemma_entries_in_push(ps, (provider, seq![e]), provider);
            lemma_first_with_empty(e.username);
            assert(seq![e] =~= Seq::<EntryView>::empty().push(e));
            lemma_first_with_push(Seq::<EntryView>::empty(), e, e.username);
        },
    }
}

/// Saving for one provider leaves every other provider's entries as they were.
pub proof fn law_save_keeps_other_providers(sv: StoreView, provider: Seq<char>, e: EntryView, other: Seq<char>)
    requires
        other != provider,
    ensures
        entries_of(saved(sv, provider, e), other) == entries_of(sv, other),
{
    lemma_provider_at_index(sv, provider);
    let ps = sv.providers;
    match provider_index(sv, provider) {
        Some(i) => {
            lemma_entries_in_update(ps, i, (provider, upserted(ps[i].1, e)), other);
        },
        None => {
            lemma_entries_in_push(ps, (provider, seq![e]), other);
        },
    }
}

/// Saving one account leaves what a lookup finds for every other user name of
/// the provider unchanged.
pub proof fn law_save_keeps_other_users(sv: StoreView, provider: Seq<char>, e: EntryView, username: Seq<char>)
    requires
        username != e.username,
    ensures
        find_entry(saved(sv, provider, e), provider, username) == find_entry(sv, provider, username),
{
    lemma_provider_at_index(sv, provider);
    let ps = sv.providers;
    match provider_index(sv, provider) {
        Some(i) => {
            let es = ps[i].1;
            lemma_entries_in_update(ps, i, (provider, upserted(es, e)), provider);
            lemma_index_of_first_spec(usernames(es), e.username);
            match index_of_first(usernames(es), e.username) {
                Some(j) => {
                    lemma_index_of_first_spec(usernames(es), username);
                    lemma_first_with_update(es, j, with_secret_of(es[j], e), username);
                },
                None => {
                    lemma_first_with_push(es, e, username);
                },
            }
        },
        None => {
            lemma_entries_in_push(ps, (provider, seq![e]), provider);
            lemma_first_with_empty(username);
            assert(seq![e] =~= Seq::<EntryView>::empty().push(e));
            lemma_first_with_push(Seq::<EntryView>::empty(), e, username);
        },
    }
}

/// Saving never makes a user name occur twice under a provider: an account
/// that is saved again is updated in place.
pub proof fn law_save_keeps_usernames_distinct(sv: StoreView, provider: Seq<char>, e: EntryView)
    requires
        usernames(entries_of(sv, provider)).no_duplicates(),
    ensures
        usernames(entries_of(saved(sv, provider, e), provider)).no_duplicates(),
        usernames(entries_of(saved(sv, provider, e), provider)).contains(e.username),
{
    lemma_provider_at_index(sv, provider);
    let ps = sv.providers;
    match provider_index(sv, provider) {
        Some(i) => {
            let es = ps[i].1;
            lemma_entries_in_update(ps, i, (provider, upserted(es, e)), provider);
            lemma_index_of_first_spec(usernames(es), e.username);
            match index_of_first(usernames(es), e.username) {
                Some(j) => {
                    let f = with_secret_of(es[j], e);
                    assert(usernames(es.update(j, f)) =~= usernames(es));
                    assert(usernames(es)[j] == e.username);
                },
                None => {
                    assert(usernames(es.push(e)) =~= usernames(es).push(e.username));
                    assert(usernames(es.push(e))[es.len() as int] == e.username);
                },
            }
        },
        None => {
            lemma_entries_in_push(ps, (provider, seq![e]), provider);
            assert(usernames(seq![e]) =~= seq![e.username]);
            assert(usernames(seq![e])[0] == e.username);
        },
    }
}

/// After deleting an account, a lookup of it finds nothing; every other user
/// name of the provider is found as before, and other providers are untouched.
pub proof fn law_deleted_user_is_gone(sv: StoreView, provider: Seq<char>, username: Seq<char>, other_user: Seq<char>, other_provider: Seq<char>)
    requires
        other_user != username,
        other_provider != provider,
    ensures
        find_entry(deleted_user(sv, provider, username), provider, username) is None,
        find_entry(deleted_user(sv, provider, username), provider, other_user) == find_entry(
            sv,
            provider,
            other_user,
        ),
        entries_of(deleted_user(sv, provider, username), other_provider) == entries_of(
            sv,
            other_provider,
        ),
{
    lemma_provider_at_index(sv, provider);
    let ps = sv.providers;
    match provider_index(sv, provider) {
        Some(i) => {
            let es = ps[i].1;
            lemma_entries_in_update(ps, i, (provider, without_user(es, username)), provider);
            lemma_entries_in_update(ps, i, (provider, without_user(es, username)), other_provider);
            lemma_without_user_first_with(es, username, username);
            lemma_without_user_first_with(es, username, other_user);
        },
        None => {
            lemma_first_with_empty(username);
        },
    }
}

/// After deleting a provider's credentials it has none, and every other
/// provider keeps its entries.
pub proof fn law_deleted_provider_is_empty(sv: StoreView, provider: Seq<char>, other: Seq<char>)
    requires
        other != provider,
    ensures
        entries_of(deleted_provider(sv, provider), provider) == Seq::<EntryView>::empty(),
        entries_of(deleted_provider(sv, provider), other) == entries_of(sv, other),
{
    lemma_without_provider_entries(sv.providers, provider, provider);
    lemma_without_provider_entries(sv.providers, provider, other);
}

/// Stamping an account as used changes nothing of it but its last-use time, so
/// its password is found as before.
pub proof fn law_touch_keeps_secret(sv: StoreView, provider: Seq<char>, username: Seq<char>, time: Seq<char>)
    ensures
        find_entry(touched(sv, provider, username, time), provider, username) == (match find_entry(
            sv,
            provider,
            username,
        ) {
            Some(f) => Some(EntryView { last_used_at: Some(time), ..f }),
            None => None,
        }),
{
    lemma_provider_at_index(sv, provider);
    let ps = sv.providers;
    match provider_index(sv, provider) {
        Some(i) => {
            let es = ps[i].1;
            lemma_index_of_first_spec(usernames(es), username);
            match index_of_first(usernames(es), username) {
                Some(j) => {
                    let f = EntryView { last_used_at: Some(time), ..es[j] };
                    lemma_entries_in_update(ps, i, (provider, es.update(j, f)), provider);
                    lemma_first_with_update(es, j, f, username);
                },
                None => {},
            }
        },
        None => {},
    }
}

/// No operation makes a provider name occur twice.
pub proof fn law_operations_keep_providers_unique(sv: StoreView, provider: Seq<char>, username: Seq<char>, e: EntryView, time: Seq<char>)
    requires
        providers_unique(sv),
    ensures
        providers_unique(saved(sv, provider, e)),
        providers_unique(deleted_user(sv, provider, username)),
        providers_unique(deleted_provider(sv, provider)),
        providers_unique(touched(sv, provider, username, time)),
{
    lemma_provider_at_index(sv, provider);
    let ps = sv.providers;
    lemma_index_of_first_spec(provider_names(ps), provider);
    match provider_index(sv, provider) {
        Some(i) => {
            assert(provider_names(ps.update(i, (provider, upserted(ps[i].1, e)))) =~= provider_names(ps));
            assert(provider_names(ps.update(i, (provider, without_user(ps[i].1, username)))) =~= provider_names(ps));
            match index_of_first(usernames(ps[i].1), username) {
                Some(j) => {
                    let es = ps[i].1;
                    assert(provider_names(ps.update(i, (provider, es.update(j, EntryView { last_used_at: Some(time), ..es[j] })))) =~= provider_names(ps));
                },
                None => {},
            }
        },
        None => {
            assert(provider_names(ps.push((provider, seq![e]))) =~= provider_names(ps).push(provider));
        },
    }
    lemma_without_provider_names(ps, provider);
}

/// UTF-8 encoding of two texts one after the other is the encoding of the
/// first followed by that of the second.
pub proof fn lemma_encode_utf8_concat(a: Seq<char>, b: Seq<char>)
    ensures
        encode_utf8(a + b) == encode_utf8(a) + encode_utf8(b),
    decreases a.len(),
{
    if a.len() == 0 {
        assert(a + b =~= b);
        assert(encode_utf8(a) =~= Seq::<u8>::empty());
        assert(Seq::<u8>::empty() + encode_utf8(b) =~= encode_utf8(b));
    } else {
        assert((a + b)[0] == a[0]);
        assert((a + b).drop_first() =~= a.drop_first() + b);
        lemma_encode_utf8_concat(a.drop_first(), b);
        let e0 = vstd::utf8::encode_scalar(a[0] as u32);
        assert(e0 + (encode_utf8(a.drop_first()) + encode_utf8(b)) =~= (e0 + encode_utf8(a.drop_first()))
            + encode_utf8(b));
    }
}

/// The key for a machine is the SHA-256 digest of the UTF-8 text of its
/// identity followed by the salt `cc-switch-credentials-v1`, for every
/// identity.
pub proof fn law_key_is_digest_of_identity_then_salt(machine_id: Seq<char>)
    ensures
        derived_key(machine_id) == sha256_digest(encode_utf8(machine_id + "cc-switch-credentials-v1"@)),
{
    lemma_encode_utf8_concat(machine_id, "cc-switch-credentials-v1"@);
}

} // verus!
