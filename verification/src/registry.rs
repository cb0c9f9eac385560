//! The pending-file registry — the handoff table from window identifiers to
//! paths awaiting delivery — together with window-label generation and the
//! per-path routing decision of the single-instance handler.

use vstd::prelude::*;
use vstd::hash_map::StringHashMap;
use crate::digits::{dec_str, is_digit_char, lemma_dec_str_digits, lemma_digits_val_dec_str,
    push_dec};

verus! {

/// Process-wide table mapping a window identifier to the file path that
/// window should open once its UI is ready. Each entry is delivered at most
/// once: the first `take` removes it.
pub struct PendingFiles {
    files: StringHashMap<String>,
}

impl View for PendingFiles {
    type V = Map<Seq<char>, Seq<char>>;

    closed spec fn view(&self) -> Map<Seq<char>, Seq<char>> {
        self.files@.map_values(|v: String| v@)
    }
}

impl PendingFiles {
    /// An empty registry.
    pub fn new() -> (r: PendingFiles)
        ensures
            r@ == Map::<Seq<char>, Seq<char>>::empty(),
    {
        let r = PendingFiles { files: StringHashMap::new() };
        proof {
            assert(r@ =~= Map::<Seq<char>, Seq<char>>::empty());
        }
        r
    }

    /// Unconditional insert or overwrite of the pending path for a window.
    pub fn put(&mut self, window_id: &str, path: &str)
        ensures
            final(self)@ == old(self)@.insert(window_id@, path@),
    {
        self.files.insert(String::from_str(window_id), String::from_str(path));
        proof {
            assert(self@ =~= old(self)@.insert(window_id@, path@));
        }
    }

    /// Atomically removes and returns the pending path for a window; the
    /// first call gets the path, any later call gets nothing.
    pub fn take(&mut self, window_id: &str) -> (r: Option<String>)
        ensures
            final(self)@ == old(self)@.remove(window_id@),
            match r {
                Some(p) => old(self)@.contains_key(window_id@) && p@ == old(self)@[window_id@],
                None => !old(self)@.contains_key(window_id@),
            },
    {
        let found = match self.files.get(window_id) {
            Some(v) => Some(v.clone()),
            None => None,
        };
        match found {
            Some(out) => {
                self.files.remove(window_id);
                proof {
                    assert(self@ =~= old(self)@.remove(window_id@));
                }
                Some(out)
            },
            None => {
                proof {
                    assert(self@ =~= old(self)@.remove(window_id@));
                }
                None
            },
        }
    }

    /// Number of windows with a path still pending.
    pub fn len(&self) -> (r: usize)
        ensures
            r == self@.len(),
    {
        proof {
            vstd::hash_map::axiom_string_hash_map_spec_len(&self.files);
            assert(self@.dom() =~= self.files@.dom());
        }
        self.files.len()
    }
}

/// The identifier a newly routed window is created under: a fixed prefix,
/// the launch timestamp in milliseconds, and the value of a monotonically
/// increasing counter.
pub open spec fn window_label_spec(now_millis: nat, counter: nat) -> Seq<char> {
    "file-"@ + dec_str(now_millis) + "-"@ + dec_str(counter)
}

/// Builds the label for the next routed window.
pub fn next_window_label(now_millis: u64, counter: u64) -> (r: String)
    ensures
        r@ == window_label_spec(now_millis as nat, counter as nat),
{
    let mut s = String::new();
    s.append("file-");
    push_dec(&mut s, now_millis);
    s.append("-");
    push_dec(&mut s, counter);
    proof {
        assert(s@ =~= window_label_spec(now_millis as nat, counter as nat));
    }
    s
}

/// The routing decision for one accepted path of a secondary launch: with no
/// window open the path is broadcast and nothing is registered; otherwise a
/// fresh label is allocated, the path is registered under it, and the host
/// is asked to create a window with that label.
pub fn route_secondary_path(
    registry: &mut PendingFiles,
    windows_open: bool,
    counter: &mut u64,
    now_millis: u64,
    path: &str,
) -> (r: Option<String>)
    requires
        *old(counter) < u64::MAX,
    ensures
        !windows_open ==> r is None && final(registry)@ == old(registry)@ && *final(counter)
            == *old(counter),
        windows_open ==> match r {
            Some(label) => label@ == window_label_spec(now_millis as nat, *old(counter) as nat)
                && final(registry)@ == old(registry)@.insert(label@, path@) && *final(counter)
                == *old(counter) + 1,
            None => false,
        },
{
    if !windows_open {
        return None;
    }
    let label = next_window_label(now_millis, *counter);
    *counter = *counter + 1;
    registry.put(label.as_str(), path);
    Some(label)
}

/// Law: a pending path put for a window is returned by the first take for
/// that window; a second take for the same window finds nothing; and a take
/// for a window that was never put finds nothing.
pub proof fn lemma_put_take_exactly_once(
    m: Map<Seq<char>, Seq<char>>,
    id: Seq<char>,
    p: Seq<char>,
    other: Seq<char>,
)
    requires
        !m.contains_key(other),
        other != id,
    ensures
        m.insert(id, p).contains_key(id),
        m.insert(id, p)[id] == p,
        !m.insert(id, p).remove(id).contains_key(id),
        !m.insert(id, p).remove(id).contains_key(other),
{
}

/// Law: window labels built from distinct counter values are distinct,
/// whatever the two timestamps were.
pub proof fn lemma_window_labels_distinct(now1: nat, c1: nat, now2: nat, c2: nat)
    requires
        c1 != c2,
    ensures
        window_label_spec(now1, c1) != window_label_spec(now2, c2),
{
    let s1 = window_label_spec(now1, c1);
    let s2 = window_label_spec(now2, c2);
    let p1 = "file-"@ + dec_str(now1) + "-"@;
    let p2 = "file-"@ + dec_str(now2) + "-"@;
    let d1 = dec_str(c1);
    let d2 = dec_str(c2);
    lemma_dec_str_digits(c1);
    lemma_dec_str_digits(c2);
    lemma_dec_str_digits(now1);
    lemma_dec_str_digits(now2);
    reveal_strlit("-");
    reveal_strlit("file-");
    if s1 == s2 {
        let l = s1.len();
        assert(p1.last() == '-');
        assert(p2.last() == '-');
        assert(!is_digit_char('-'));
        if d1.len() < d2.len() {
            let idx = l - d1.len() - 1;
            assert(s1[idx] == p1.last());
            assert(s2[idx] == d2[idx - p2.len()]);
            assert(is_digit_char(d2[idx - p2.len()]));
            assert(false);
        } else if d2.len() < d1.len() {
            let idx = l - d2.len() - 1;
            assert(s2[idx] == p2.last());
            assert(s1[idx] == d1[idx - p1.len()]);
            assert(is_digit_char(d1[idx - p1.len()]));
            assert(false);
        } else {
            assert(p1.len() == p2.len());
            assert forall|i: int| 0 <= i < d1.len() implies d1[i] == d2[i] by {
                assert(s1[p1.len() + i] == d1[i]);
                assert(s2[p2.len() + i] == d2[i]);
            }
            assert(d1 =~= d2);
            lemma_digits_val_dec_str(c1);
            lemma_digits_val_dec_str(c2);
            assert(false);
        }
    }
}

} // verus!
