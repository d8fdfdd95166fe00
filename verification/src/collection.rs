//! Collection rules: name limits, the smart-rule schema version, paging through
//! collection members and the unique candidate set they resolve to.
use vstd::prelude::*;

use crate::error::{AppError, AppResult};
use crate::models::SmartCollectionRule;
use crate::rotation::{strictly_sorted, unique_sorted_ids};
use crate::text::{chars_of, spec_trim, trim_str};

verus! {

/// A collection name must have 1 to 80 characters once trimmed.
pub open spec fn spec_valid_name(name: Seq<char>) -> bool {
    spec_trim(name).len() > 0 && spec_trim(name).len() <= 80
}

/// Keeps collection names useful in compact navigation and prevents empty identifiers.
pub fn validate_name(name: &str) -> (r: AppResult<()>)
    ensures
        spec_valid_name(name@) ==> r is Ok,
        !spec_valid_name(name@) ==> (r matches Err(AppError::Configuration(m)) && m@
            == "collection name must contain 1 to 80 characters"@),
{
    let trimmed = chars_of(trim_str(name).as_str());
    if trimmed.len() == 0 || trimmed.len() > 80 {
        return Err(
            AppError::Configuration("collection name must contain 1 to 80 characters".to_string()),
        );
    }
    Ok(())
}

/// Smart rules use schema version 1.
pub fn check_rule_version(rule: &SmartCollectionRule) -> (r: AppResult<()>)
    ensures
        rule.version == 1 ==> r is Ok,
        rule.version != 1 ==> (r matches Err(AppError::Configuration(m)) && m@
            == "unsupported smart collection rule version"@),
{
    if rule.version != 1 {
        return Err(
            AppError::Configuration("unsupported smart collection rule version".to_string()),
        );
    }
    Ok(())
}

/// Collection positions are never negative.
pub fn collection_position(position: i64) -> (p: i64)
    ensures
        p == (if position < 0 {
            0
        } else {
            position
        }),
{
    if position < 0 {
        0
    } else {
        position
    }
}

/// Whether another member page follows the page just read.
pub fn has_more_pages(page: u32, page_size: u32, total: u64) -> (b: bool)
    ensures
        b == ((page as nat * page_size as nat) < total),
{
    assert(page as nat * page_size as nat <= u64::MAX) by (nonlinear_arith)
        requires
            page <= u32::MAX,
            page_size <= u32::MAX,
    ;
    (page as u64) * (page_size as u64) < total
}

/// The page after `page`, saturating at the largest page number.
pub fn following_page(page: u32) -> (n: u32)
    ensures
        page < u32::MAX ==> n == page + 1,
        page == u32::MAX ==> n == page,
{
    if page == u32::MAX {
        page
    } else {
        page + 1
    }
}

/// Whether `id` belongs to one of the member lists.
pub open spec fn in_some_list(lists: Seq<Vec<i64>>, id: i64) -> bool {
    exists|k: int| 0 <= k < lists.len() && (#[trigger] lists[k])@.contains(id)
}

proof fn lemma_union_step(lists: Seq<Vec<i64>>, k: int, before: Seq<i64>, all: Seq<i64>)
    requires
        0 <= k < lists.len(),
        all == before + lists[k]@,
        forall|y: i64|
            #![trigger before.contains(y)]
            #![trigger in_some_list(lists.take(k), y)]
            before.contains(y) <==> in_some_list(lists.take(k), y),
    ensures
        forall|y: i64| all.contains(y) <==> in_some_list(lists.take(k + 1), y),
{
    let t = lists.take(k + 1);
    assert forall|y: i64| all.contains(y) <==> in_some_list(t, y) by {
        assert(t[k] == lists[k]);
        if all.contains(y) {
            let i = choose|i: int| 0 <= i < all.len() && all[i] == y;
            if i < before.len() {
                assert(before[i] == y);
                assert(before.contains(y));
                let m = choose|m: int| 0 <= m < k && (#[trigger] lists.take(k)[m])@.contains(y);
                assert(t[m] == lists.take(k)[m]);
                assert(t[m]@.contains(y));
            } else {
                assert(lists[k]@[i - before.len()] == y);
                assert(t[k]@.contains(y));
            }
        }
        if in_some_list(t, y) {
            let m = choose|m: int| 0 <= m < t.len() && (#[trigger] t[m])@.contains(y);
            if m < k {
                assert(lists.take(k)[m] == t[m]);
                assert(in_some_list(lists.take(k), y));
                assert(before.contains(y));
                let i = choose|i: int| 0 <= i < before.len() && before[i] == y;
                assert(all[i] == y);
            } else {
                let i = choose|i: int| 0 <= i < lists[k]@.len() && lists[k]@[i] == y;
                assert(all[before.len() + i] == y);
            }
        }
    }
}

/// Resolves several collections into one candidate set: every member of any of
/// them, each once, in increasing order.
pub fn member_union(lists: &Vec<Vec<i64>>) -> (r: Vec<i64>)
    ensures
        strictly_sorted(r@),
        forall|y: i64| r@.contains(y) <==> in_some_list(lists@, y),
{
    let mut all: Vec<i64> = Vec::new();
    let mut k: usize = 0;
    while k < lists.len()
        invariant
            k <= lists.len(),
            forall|y: i64| all@.contains(y) <==> in_some_list(lists@.take(k as int), y),
        decreases lists.len() - k,
    {
        let list = &lists[k];
        let ghost before = all@;
        let mut j: usize = 0;
        while j < list.len()
            invariant
                j <= list.len(),
                all@ == before + list@.take(j as int),
                k < lists.len(),
                list@ == lists@[k as int]@,
                forall|y: i64| before.contains(y) <==> in_some_list(lists@.take(k as int), y),
            decreases list.len() - j,
        {
            all.push(list[j]);
            assert(list@.take(j + 1) =~= list@.take(j as int).push(list@[j as int]));
            assert(all@ =~= before + list@.take(j + 1));
            j += 1;
        }
        proof {
            assert(list@.take(list@.len() as int) =~= list@);
            assert(all@ =~= before + list@);
            lemma_union_step(lists@, k as int, before, all@);
        }
        k += 1;
    }
    assert(lists@.take(lists@.len() as int) =~= lists@);
    unique_sorted_ids(&all)
}

} // verus!

