//! Workspace-scoped configuration keys: plugins store per-workspace
//! configuration under a key derived from a hash of the workspace root.
use vstd::prelude::*;

use crate::text::{
    hex_text, lemma_hex_text_injective, lemma_hex_text_no_dot, owned, push_char, push_hex,
};

verus! {

/// The hash that `std::collections::hash_map::DefaultHasher::new()` gives
/// for a string (`str::hash`, then `finish`). Every hasher made by `new`
/// starts from the same keys, so the hash depends on the string alone
/// (for one build of the standard library).
pub uninterp spec fn default_str_hash(s: Seq<char>) -> u64;

/// Hashes a string with a fresh `DefaultHasher`; the contract names the
/// hash and says no more of it.
#[verifier::external_body]
fn hash_str(s: &str) -> (h: u64)
    ensures
        h == default_str_hash(s@),
{
    let mut hasher = std::collections::hash_map::DefaultHasher::new();
    std::hash::Hash::hash(s, &mut hasher);
    std::hash::Hasher::finish(&hasher)
}

/// The root that stands for "no workspace".
pub open spec fn default_root() -> Seq<char> {
    "__default__"@
}

/// The key for `prefix` in the workspace `root`: the prefix, a dot, and the
/// lower-case hexadecimal hash of the root (of `__default__` without one).
pub open spec fn workspace_key_text(prefix: Seq<char>, root: Option<Seq<char>>) -> Seq<char> {
    let r = match root {
        Some(r) => r,
        None => default_root(),
    };
    prefix + seq!['.'] + hex_text(default_str_hash(r) as nat)
}

/// A storage key scoped to a workspace, such as
/// `myplugin.config.a1b2c3d4e5f6`.
pub fn workspace_key(prefix: &str, workspace_root: Option<&str>) -> (key: String)
    ensures
        key@ == workspace_key_text(
            prefix@,
            match workspace_root {
                Some(r) => Some(r@),
                None => None,
            },
        ),
{
    let root = match workspace_root {
        Some(r) => r,
        None => "__default__",
    };
    let h = hash_str(root);
    let mut key = owned(prefix);
    push_char(&mut key, '.');
    push_hex(&mut key, h);
    key
}

/// Without a workspace, the key is that of the workspace `__default__`.
pub proof fn lemma_workspace_key_default(prefix: Seq<char>)
    ensures
        workspace_key_text(prefix, None) == workspace_key_text(prefix, Some(default_root())),
{
}

/// The key starts with the prefix and a dot.
pub proof fn lemma_workspace_key_prefix(prefix: Seq<char>, root: Option<Seq<char>>)
    ensures
        workspace_key_text(prefix, root).subrange(0, prefix.len() as int) == prefix,
        workspace_key_text(prefix, root)[prefix.len() as int] == '.',
{
    let k = workspace_key_text(prefix, root);
    assert(k.subrange(0, prefix.len() as int) =~= prefix);
}

/// The dot after the prefix is the last dot of the key: nothing after it
/// is a dot, so splitting the key at its last dot gives the prefix back.
pub proof fn lemma_workspace_key_last_dot(prefix: Seq<char>, root: Option<Seq<char>>)
    ensures
        forall|i: int|
            prefix.len() < i < workspace_key_text(prefix, root).len() ==> #[trigger] workspace_key_text(
                prefix,
                root,
            )[i] != '.',
{
    let r = match root {
        Some(r) => r,
        None => default_root(),
    };
    let h = hex_text(default_str_hash(r) as nat);
    lemma_hex_text_no_dot(default_str_hash(r) as nat);
    let k = workspace_key_text(prefix, root);
    assert forall|i: int| prefix.len() < i < k.len() implies #[trigger] k[i] != '.' by {
        assert(k[i] == h[i - prefix.len() - 1]);
    }
}

/// Keys for different prefixes differ, whatever the workspaces.
pub proof fn lemma_workspace_key_prefix_injective(
    p1: Seq<char>,
    r1: Option<Seq<char>>,
    p2: Seq<char>,
    r2: Option<Seq<char>>,
)
    requires
        workspace_key_text(p1, r1) == workspace_key_text(p2, r2),
    ensures
        p1 == p2,
{
    let k = workspace_key_text(p1, r1);
    lemma_workspace_key_prefix(p1, r1);
    lemma_workspace_key_prefix(p2, r2);
    lemma_workspace_key_last_dot(p1, r1);
    lemma_workspace_key_last_dot(p2, r2);
    if p1.len() < p2.len() {
        assert(k[p2.len() as int] == '.');
    } else if p2.len() < p1.len() {
        assert(k[p1.len() as int] == '.');
    }
    assert(p1.len() == p2.len());
    assert(p1 =~= k.subrange(0, p1.len() as int));
}

/// Two workspace roots give the same key for a prefix exactly when the
/// hashes of the whole roots are equal.
pub proof fn lemma_workspace_key_separates_roots(prefix: Seq<char>, r1: Seq<char>, r2: Seq<char>)
    ensures
        workspace_key_text(prefix, Some(r1)) == workspace_key_text(prefix, Some(r2))
            <==> default_str_hash(r1) == default_str_hash(r2),
{
    let k1 = workspace_key_text(prefix, Some(r1));
    let k2 = workspace_key_text(prefix, Some(r2));
    let h1 = hex_text(default_str_hash(r1) as nat);
    let h2 = hex_text(default_str_hash(r2) as nat);
    if k1 == k2 {
        let n = prefix.len() + 1;
        assert(k1.subrange(n as int, k1.len() as int) =~= h1);
        assert(k2.subrange(n as int, k2.len() as int) =~= h2);
        lemma_hex_text_injective(default_str_hash(r1) as nat, default_str_hash(r2) as nat);
    }
}

} // verus!

