//! Deciding about the Steam store's answers when listing an app's DLCs: when
//! the answer counts as a failure, how the DLC ids are batched into
//! requests, and what name a DLC gets.
use vstd::prelude::*;
use crate::text::{chars_of, decimal, extend, push_decimal, string_of};

verus! {

/// How many app ids go into one `appdetails` request.
pub const DLC_CHUNK: usize = 10;

/// The `appdetails` address of the Steam store, before the app ids.
pub const APPDETAILS_URL: &'static str = "https://store.steampowered.com/api/appdetails?appids=";

/// The name given to a DLC whose details lack one.
pub const DEFAULT_DLC_NAME: &'static str = "DLC";

/// Whether the store's answer about an app is usable: `success` is `true`
/// and `data` is present (not null).
pub fn details_usable(success: Option<bool>, data_present: bool) -> (r: bool)
    ensures
        r == (success == Some(true) && data_present),
{
    match success {
        Some(b) => b && data_present,
        None => false,
    }
}

/// The `k`-th batch of at most [`DLC_CHUNK`] ids.
pub open spec fn chunk_of(ids: Seq<u32>, k: int) -> Seq<u32> {
    ids.subrange(10 * k, if 10 * k + 10 <= ids.len() { 10 * k + 10 } else { ids.len() as int })
}

/// The number of batches for `n` ids.
pub open spec fn chunk_count(n: nat) -> nat {
    (n + 9) / 10
}

/// Splits `ids` into consecutive batches of ten (the last may be shorter).
pub fn dlc_chunks(ids: &Vec<u32>) -> (r: Vec<Vec<u32>>)
    ensures
        r@.len() == chunk_count(ids@.len()),
        forall|k: int| 0 <= k < r@.len() ==> #[trigger] r@[k]@ == chunk_of(ids@, k),
{
    let mut r: Vec<Vec<u32>> = Vec::new();
    let mut start: usize = 0;
    while start < ids.len()
        invariant
            start <= ids.len(),
            start <= 10 * r@.len(),
            start < ids.len() ==> start == 10 * r@.len(),
            forall|k: int| 0 <= k < r@.len() ==> #[trigger] r@[k]@ == chunk_of(ids@, k),
            start < ids.len() ==> r@.len() < chunk_count(ids@.len()),
            start == ids.len() ==> r@.len() == chunk_count(ids@.len()),
        decreases ids.len() - start,
    {
        let end = if ids.len() - start >= 10 {
            start + 10
        } else {
            ids.len()
        };
        let mut c: Vec<u32> = Vec::new();
        let mut i: usize = start;
        while i < end
            invariant
                start <= i <= end <= ids.len(),
                c@ == ids@.subrange(start as int, i as int),
            decreases end - i,
        {
            c.push(ids[i]);
            i += 1;
            assert(c@ =~= ids@.subrange(start as int, i as int));
        }
        let ghost k = r@.len() as int;
        assert(c@ == chunk_of(ids@, k));
        r.push(c);
        start = end;
    }
    r
}

/// The ids of `ids` in decimal, separated by commas.
pub open spec fn joined_ids(ids: Seq<u32>) -> Seq<char>
    decreases ids.len(),
{
    if ids.len() == 0 {
        Seq::empty()
    } else if ids.len() == 1 {
        decimal(ids[0] as nat)
    } else {
        joined_ids(ids.drop_last()) + seq![','] + decimal(ids.last() as nat)
    }
}

/// The `appdetails` address for the apps `ids`.
pub fn details_url(ids: &Vec<u32>) -> (r: String)
    ensures
        r@ == APPDETAILS_URL@ + joined_ids(ids@),
{
    let mut v = chars_of(APPDETAILS_URL);
    let mut i: usize = 0;
    assert(ids@.take(0) =~= Seq::<u32>::empty());
    while i < ids.len()
        invariant
            i <= ids.len(),
            v@ == APPDETAILS_URL@ + joined_ids(ids@.take(i as int)),
        decreases ids.len() - i,
    {
        let ghost before = v@;
        if i > 0 {
            v.push(',');
        }
        push_decimal(&mut v, ids[i]);
        assert(ids@.take(i + 1).drop_last() =~= ids@.take(i as int));
        if i == 0 {
            assert(v@ =~= APPDETAILS_URL@ + joined_ids(ids@.take(1)));
        } else {
            assert(v@ =~= before + seq![','] + decimal(ids@[i as int] as nat));
        }
        i += 1;
    }
    assert(ids@.take(ids.len() as int) =~= ids@);
    string_of(&v)
}

/// The `appdetails` address for one app.
pub fn app_details_url(appid: &str) -> (r: String)
    ensures
        r@ == APPDETAILS_URL@ + appid@,
{
    let mut v = chars_of(APPDETAILS_URL);
    extend(&mut v, &chars_of(appid));
    string_of(&v)
}

/// The name of a DLC: the one its details give, or [`DEFAULT_DLC_NAME`].
pub fn dlc_name(name: Option<String>) -> (r: String)
    ensures
        r@ == match name {
            Some(n) => n@,
            None => DEFAULT_DLC_NAME@,
        },
{
    match name {
        Some(n) => n,
        None => string_of(&chars_of(DEFAULT_DLC_NAME)),
    }
}

/// The name the store's reply for a batch gives the `k`-th DLC of the batch.
pub open spec fn batch_name(names: Seq<Option<String>>, k: int) -> Seq<char> {
    if k < names.len() {
        match names[k] {
            Some(n) => n@,
            None => DEFAULT_DLC_NAME@,
        }
    } else {
        DEFAULT_DLC_NAME@
    }
}

/// The `(id, name)` pairs a batch of DLC ids adds to the list: none when the
/// request or its answer failed (`reply` is none), otherwise each id of the
/// batch, in order, with the name the reply gives it (the `k`-th entry of
/// `reply` for the `k`-th id).
pub fn batch_results(chunk: &Vec<u32>, reply: Option<Vec<Option<String>>>) -> (r: Vec<(u32, String)>)
    ensures
        reply is None ==> r@.len() == 0,
        reply matches Some(ns) ==> r@.len() == chunk@.len() && forall|k: int|
            0 <= k < chunk@.len() ==> (#[trigger] r@[k]).0 == chunk@[k] && r@[k].1@ == batch_name(
                ns@,
                k,
            ),
{
    let mut r: Vec<(u32, String)> = Vec::new();
    match reply {
        None => r,
        Some(ns) => {
            let mut i: usize = 0;
            while i < chunk.len()
                invariant
                    i <= chunk.len(),
                    r@.len() == i,
                    forall|k: int|
                        0 <= k < i ==> (#[trigger] r@[k]).0 == chunk@[k] && r@[k].1@ == batch_name(
                            ns@,
                            k,
                        ),
                decreases chunk.len() - i,
            {
                let name = if i < ns.len() {
                    match &ns[i] {
                        Some(n) => Some(n.clone()),
                        None => None,
                    }
                } else {
                    None
                };
                r.push((chunk[i], dlc_name(name)));
                i += 1;
            }
            r
        },
    }
}

} // verus!
