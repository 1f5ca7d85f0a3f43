//! What the supervisor decides: the paging of the shard list, the backoff of
//! its retries, and each worker's identity.
use vstd::prelude::*;
use crate::reader::get_back_off_milli;
use vstd::arithmetic::power2::pow2;
use crate::lease::texts;

verus! {

/// Attempts at enumerating the shards before startup is given up.
pub const ENUMERATION_ATTEMPTS: u32 = 6;

/// The shard list gathered page by page.
pub struct ShardListing {
    pub shards: Vec<String>,
    /// Where the next page starts (exclusive): the last shard of the last
    /// non-empty page that announced more.
    pub exclusive_start: Option<String>,
    pub has_more: bool,
}

impl ShardListing {
    /// Before the first page.
    pub fn new() -> (r: ShardListing)
        ensures
            r.shards@.len() == 0,
            r.exclusive_start is None,
            r.has_more,
    {
        ShardListing { shards: Vec::new(), exclusive_start: None, has_more: true }
    }

    /// Adds one page of shard ids, with the page's "has more shards" signal.
    pub fn add_page(&mut self, page: Vec<String>, has_more: bool)
        ensures
            texts(final(self).shards@) == texts(old(self).shards@) + texts(page@),
            final(self).has_more == has_more,
            has_more && page@.len() > 0 ==> final(self).exclusive_start == Some(page@.last()),
            !(has_more && page@.len() > 0) ==> final(self).exclusive_start == old(self).exclusive_start,
    {
        let n = page.len();
        if has_more && n > 0 {
            self.exclusive_start = Some(page[n - 1].clone());
        }
        let ghost before = self.shards@;
        let mut page = page;
        let ghost p = page@;
        self.shards.append(&mut page);
        assert(texts(self.shards@) =~= texts(before) + texts(p));
        self.has_more = has_more;
    }
}

/// The pause after failed enumeration attempt `attempt` (counted from 0):
/// `2^attempt` milliseconds, or absent once every attempt has been made.
pub fn enumeration_backoff(attempt: u32) -> (r: Option<u64>)
    ensures
        attempt + 1 < ENUMERATION_ATTEMPTS ==> r == Some(pow2(attempt as nat) as u64),
        attempt + 1 >= ENUMERATION_ATTEMPTS ==> r is None,
{
    if attempt < ENUMERATION_ATTEMPTS - 1 {
        Some(get_back_off_milli(attempt))
    } else {
        None
    }
}

/// A worker's identity: the process id and the thread's id joined by `-`.
pub fn worker_id(process_id: &str, thread_id: &str) -> (r: String)
    ensures
        r@ == process_id@ + seq!['-'] + thread_id@,
{
    let mut s = String::from_str(process_id);
    s.append("-");
    s.append(thread_id);
    proof { reveal_strlit("-"); }
    assert(s@ =~= process_id@ + seq!['-'] + thread_id@);
    s
}

} // verus!
