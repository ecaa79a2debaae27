use vstd::prelude::*;

verus! {

/// One directory entry as the listing needs it: its name and whether it is a directory.
pub struct EntryInfo {
    pub name: String,
    pub is_dir: bool,
}

/// A name that begins with `.` is hidden.
pub open spec fn is_hidden(name: Seq<char>) -> bool {
    name.len() > 0 && name[0] == '.'
}

/// The line written for an entry: directories get a trailing `/`.
pub open spec fn entry_line(name: Seq<char>, is_dir: bool) -> Seq<char> {
    if is_dir {
        name + seq!['/']
    } else {
        name
    }
}

/// The lines of a listing of `entries` (name, is-directory), in order; hidden
/// entries are left out unless `show_hidden` holds.
pub open spec fn listing(entries: Seq<(Seq<char>, bool)>, show_hidden: bool) -> Seq<Seq<char>>
    decreases entries.len(),
{
    if entries.len() == 0 {
        Seq::empty()
    } else {
        let prev = listing(entries.drop_last(), show_hidden);
        let (name, is_dir) = entries.last();
        if show_hidden || !is_hidden(name) {
            prev.push(entry_line(name, is_dir))
        } else {
            prev
        }
    }
}

pub open spec fn entries_view(entries: Seq<EntryInfo>) -> Seq<(Seq<char>, bool)> {
    entries.map_values(|e: EntryInfo| (e.name@, e.is_dir))
}

/// Whether `name` begins with `.`.
pub fn name_is_hidden(name: &str) -> (r: bool)
    ensures
        r == is_hidden(name@),
{
    name.unicode_len() > 0 && name.get_char(0) == '.'
}

/// The lines to write for `entries`, in their order.
pub fn listing_lines(entries: &Vec<EntryInfo>, show_hidden: bool) -> (r: Vec<String>)
    ensures
        r@.map_values(|s: String| s@) == listing(entries_view(entries@), show_hidden),
{
    let ghost ev = entries_view(entries@);
    let mut out: Vec<String> = Vec::new();
    let mut i: usize = 0;
    while i < entries.len()
        invariant
            ev == entries_view(entries@),
            i <= entries@.len(),
            out@.map_values(|s: String| s@) == listing(ev.take(i as int), show_hidden),
        decreases entries@.len() - i,
    {
        let e = &entries[i];
        proof {
            assert(ev.take(i + 1).drop_last() =~= ev.take(i as int));
            assert(ev.take(i + 1).last() == (e.name@, e.is_dir));
        }
        if show_hidden || !name_is_hidden(e.name.as_str()) {
            let mut line = String::from_str(e.name.as_str());
            if e.is_dir {
                proof {
                    reveal_strlit("/");
                }
                line.append("/");
            }
            assert(line@ =~= entry_line(e.name@, e.is_dir));
            out.push(line);
            proof {
                assert(out@.map_values(|s: String| s@) =~= listing(ev.take(i as int), show_hidden).push(
                    entry_line(e.name@, e.is_dir),
                ));
            }
        }
        i += 1;
    }
    proof {
        assert(ev.take(entries@.len() as int) =~= ev);
    }
    out
}

} // verus!
