use vstd::prelude::*;

use crate::store::infos_view;
use crate::store::InfoView;
use crate::store::PdfInfo;

verus! {

/// A file found in the document directory: its name, and its last access time in
/// milliseconds since the Unix epoch where the system reports one.
pub struct FsEntry {
    pub name: String,
    pub accessed_millis: Option<u128>,
}

/// The read time recorded for an access time: absent where there is none or where it
/// does not fit in `i64`.
pub open spec fn read_time(accessed_millis: Option<u128>) -> Option<i64> {
    match accessed_millis {
        Some(m) => if m <= i64::MAX as u128 { Some(m as i64) } else { None },
        None => None,
    }
}

pub open spec fn scanned(e: FsEntry) -> InfoView {
    InfoView { last_read: read_time(e.accessed_millis), filename: e.name@, state: None }
}

/// The inventory of the document directory: one entry per file, in the order given, with
/// no reading state.
pub fn pdfscan(entries: &Vec<FsEntry>) -> (r: Vec<PdfInfo>)
    ensures
        infos_view(r@) == entries@.map_values(|e: FsEntry| scanned(e)),
{
    let mut v: Vec<PdfInfo> = Vec::new();
    let mut i: usize = 0;
    while i < entries.len()
        invariant
            0 <= i <= entries@.len(),
            infos_view(v@) == entries@.map_values(|e: FsEntry| scanned(e)).subrange(0, i as int),
        decreases entries.len() - i,
    {
        let e = &entries[i];
        let last_read = match e.accessed_millis {
            Some(m) => {
                if m <= i64::MAX as u128 {
                    Some(m as i64)
                } else {
                    None
                }
            },
            None => None,
        };
        let info = PdfInfo { last_read, filename: e.name.clone(), state: None };
        let ghost before = v@;
        v.push(info);
        assert(infos_view(v@) =~= infos_view(before).push(info@));
        assert(infos_view(v@) =~= entries@.map_values(|e: FsEntry| scanned(e)).subrange(0, i + 1));
        i = i + 1;
    }
    assert(entries@.map_values(|e: FsEntry| scanned(e)).subrange(0, i as int) =~= entries@.map_values(
        |e: FsEntry| scanned(e),
    ));
    v
}

} // verus!
