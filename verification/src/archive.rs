use vstd::prelude::*;
use crate::grid::TileError;
use crate::names::{tile_name, tile_name_seq};

verus! {

/// An in-memory zip archive under construction. The zip writer of the zip
/// crate is held opaquely; everything the contracts say about it goes
/// through `archive_entries`.
#[verifier::external_body]
pub struct TileArchive {
    writer: zip::ZipWriter<std::io::Cursor<Vec<u8>>>,
}

/// The named entries written into the archive so far, in order:
/// each is (entry name, entry bytes).
pub uninterp spec fn archive_entries(a: TileArchive) -> Seq<(Seq<char>, Seq<u8>)>;

/// The finished zip container holding exactly the given entries. With the
/// fixed entry options used here (stored compression, the constant default
/// timestamp, zip64-capable entries) the writer's output is a function of
/// the entries alone.
pub uninterp spec fn zip_bytes(entries: Seq<(Seq<char>, Seq<u8>)>) -> Seq<u8>;

/// Relies on zip::ZipWriter::new on an in-memory cursor: a fresh writer
/// holds no entries.
#[verifier::external_body]
pub(crate) fn archive_new() -> (a: TileArchive)
    ensures
        archive_entries(a) == Seq::<(Seq<char>, Seq<u8>)>::empty(),
{
    TileArchive { writer: zip::ZipWriter::new(std::io::Cursor::new(Vec::new())) }
}

/// Relies on zip::ZipWriter::start_file and std::io::Write::write_all:
/// together they append one entry with the given name holding exactly the
/// given bytes. Writing into memory cannot fail and the entries are marked
/// zip64-capable, so the writer rejects only a name it already holds or a
/// name whose encoding exceeds the format's 16-bit length field — an ASCII
/// name of at most 65535 characters that is new to the archive is always
/// accepted. Both rejections happen before anything is written, so on an
/// error the entries are unchanged.
#[verifier::external_body]
pub(crate) fn archive_add(a: &mut TileArchive, name: &String, data: &Vec<u8>) -> (r: Result<
    (),
    TileError,
>)
    ensures
        (vstd::utf8::is_ascii_chars(name@) && name@.len() <= 65535 && (forall|i: int|
            0 <= i < archive_entries(*old(a)).len() ==> #[trigger] archive_entries(*old(a))[i].0
                != name@)) ==> r is Ok,
        r matches Ok(()) ==> archive_entries(*final(a)) == archive_entries(*old(a)).push(
            (name@, data@),
        ),
        r is Err ==> archive_entries(*final(a)) == archive_entries(*old(a)),
        r matches Err(e) ==> e == TileError::ArchiveFailure,
{
    let options = zip::write::SimpleFileOptions::default().large_file(true);
    if a.writer.start_file(name.as_str(), options).is_err() {
        return Err(TileError::ArchiveFailure);
    }
    if std::io::Write::write_all(&mut a.writer, data.as_slice()).is_err() {
        return Err(TileError::ArchiveFailure);
    }
    Ok(())
}

/// Relies on zip::ZipWriter::finish and std::io::Cursor::into_inner: the
/// central directory is written and the buffer with the whole container
/// comes back; the bytes depend on the entries alone. Every entry the writer
/// holds already passed the name checks, the counts and offsets fall back to
/// zip64 records instead of failing, and writing into memory cannot fail, so
/// finishing always succeeds.
#[verifier::external_body]
pub(crate) fn archive_finish(a: TileArchive) -> (r: Result<Vec<u8>, TileError>)
    ensures
        r is Ok,
        r matches Ok(bytes) ==> bytes@ == zip_bytes(archive_entries(a)),
{
    match a.writer.finish() {
        Ok(cursor) => Ok(cursor.into_inner()),
        Err(_) => Err(TileError::ArchiveFailure),
    }
}

/// The archive entries induced by one row of encoded tiles: the cell at
/// column `c` of row `r` is named `tile_{r}_{c}.png`.
pub open spec fn row_entries(row: Seq<Seq<u8>>, r: nat) -> Seq<(Seq<char>, Seq<u8>)> {
    Seq::new(row.len(), |c: int| (tile_name_seq(r, c as nat), row[c]))
}

/// The archive entries induced by a whole tile grid, row-major.
pub open spec fn grid_entries(tiles: Seq<Seq<Seq<u8>>>) -> Seq<(Seq<char>, Seq<u8>)>
    decreases tiles.len(),
{
    if tiles.len() == 0 {
        Seq::empty()
    } else {
        grid_entries(tiles.drop_last()) + row_entries(tiles.last(), (tiles.len() - 1) as nat)
    }
}

/// Every entry of a grid's entry list is named for some cell of the grid.
pub proof fn lemma_grid_entries_name_at(tiles: Seq<Seq<Seq<u8>>>, k: int)
    requires
        0 <= k < grid_entries(tiles).len(),
    ensures
        exists|i: int, j: int|
            0 <= i < tiles.len() && 0 <= j < tiles[i].len() && grid_entries(tiles)[k].0
                == #[trigger] tile_name_seq(i as nat, j as nat),
    decreases tiles.len(),
{
    let n = tiles.len() as int;
    let prefix = tiles.drop_last();
    let lastrow = row_entries(tiles.last(), (n - 1) as nat);
    if k < grid_entries(prefix).len() {
        lemma_grid_entries_name_at(prefix, k);
        let (i, j) = choose|i: int, j: int|
            0 <= i < prefix.len() && 0 <= j < prefix[i].len() && grid_entries(prefix)[k].0
                == #[trigger] tile_name_seq(i as nat, j as nat);
        assert(prefix[i] == tiles[i]);
        assert(grid_entries(tiles)[k] == grid_entries(prefix)[k]);
        assert(0 <= i < tiles.len() && 0 <= j < tiles[i].len() && grid_entries(tiles)[k].0
            == tile_name_seq(i as nat, j as nat));
    } else {
        let j = k - grid_entries(prefix).len();
        assert(grid_entries(tiles)[k] == lastrow[j]);
        assert(lastrow[j].0 == tile_name_seq((n - 1) as nat, j as nat));
        assert(tiles.last() == tiles[n - 1]);
        assert(0 <= n - 1 < tiles.len() && 0 <= j < tiles[n - 1].len() && grid_entries(tiles)[k].0
            == tile_name_seq((n - 1) as nat, j as nat));
    }
}

/// Packs the row-major grid of encoded tiles into a single zip container:
/// one entry per cell, named `tile_{row}_{col}.png`, holding that cell's
/// bytes verbatim, written in row-major order. The names are short, ASCII
/// and pairwise distinct, and the container is built in memory, so assembly
/// always succeeds.
pub fn write_tile_zip(tiles: &Vec<Vec<Vec<u8>>>) -> (res: Result<Vec<u8>, TileError>)
    ensures
        res is Ok,
        res matches Ok(bytes) ==> bytes@ == zip_bytes(grid_entries(tiles.deep_view())),
{
    let ghost dv = tiles.deep_view();
    let mut archive = archive_new();
    let mut r: usize = 0;
    while r < tiles.len()
        invariant
            dv == tiles.deep_view(),
            r <= tiles.len(),
            dv.len() == tiles.len(),
            archive_entries(archive) =~= grid_entries(dv.subrange(0, r as int)),
        decreases tiles.len() - r,
    {
        let row = &tiles[r];
        let mut c: usize = 0;
        while c < row.len()
            invariant
                dv == tiles.deep_view(),
                r < tiles.len(),
                dv.len() == tiles.len(),
                c <= row.len(),
                row == &tiles[r as int],
                row.deep_view() == dv[r as int],
                archive_entries(archive) =~= grid_entries(dv.subrange(0, r as int))
                    + row_entries(dv[r as int].subrange(0, c as int), r as nat),
            decreases row.len() - c,
        {
            let name = tile_name(r, c);
            let data = &row[c];
            proof {
                assert((r as nat) < crate::names::pow10(20) && (c as nat) < crate::names::pow10(
                    20,
                )) by {
                    reveal_with_fuel(crate::names::pow10, 21);
                }
                crate::names::lemma_tile_name_ascii_len(r as nat, c as nat);
                let pre = archive_entries(archive);
                let gname = tile_name_seq(r as nat, c as nat);
                let g = grid_entries(dv.subrange(0, r as int));
                let part = row_entries(dv[r as int].subrange(0, c as int), r as nat);
                assert forall|k: int| 0 <= k < pre.len() implies #[trigger] pre[k].0 != gname by {
                    if k < g.len() {
                        assert(pre[k] == g[k]);
                        lemma_grid_entries_name_at(dv.subrange(0, r as int), k);
                        let (i, j) = choose|i: int, j: int|
                            0 <= i < dv.subrange(0, r as int).len() && 0 <= j < dv.subrange(
                                0,
                                r as int,
                            )[i].len() && g[k].0 == #[trigger] tile_name_seq(i as nat, j as nat);
                        if pre[k].0 == gname {
                            crate::names::lemma_tile_name_injective(
                                i as nat,
                                j as nat,
                                r as nat,
                                c as nat,
                            );
                            assert(false);
                        }
                    } else {
                        let j = k - g.len();
                        assert(pre[k] == part[j]);
                        assert(part[j].0 == tile_name_seq(r as nat, j as nat));
                        if pre[k].0 == gname {
                            crate::names::lemma_tile_name_injective(
                                r as nat,
                                j as nat,
                                r as nat,
                                c as nat,
                            );
                            assert(false);
                        }
                    }
                }
            }
            match archive_add(&mut archive, &name, data) {
                Ok(()) => {},
                Err(e) => {
                    return Err(e);
                },
            }
            proof {
                assert(data.deep_view() =~= data@);
                assert(row.deep_view()[c as int] == data.deep_view());
                assert(dv[r as int][c as int] == data@);
                assert(dv[r as int].subrange(0, (c + 1) as int) =~= dv[r as int].subrange(
                    0,
                    c as int,
                ).push(dv[r as int][c as int]));
                assert(row_entries(dv[r as int].subrange(0, (c + 1) as int), r as nat)
                    =~= row_entries(dv[r as int].subrange(0, c as int), r as nat).push(
                    (tile_name_seq(r as nat, c as nat), dv[r as int][c as int]),
                ));
            }
            c = c + 1;
        }
        proof {
            assert(dv[r as int].subrange(0, dv[r as int].len() as int) =~= dv[r as int]);
            let prefix = dv.subrange(0, (r + 1) as int);
            assert(prefix.drop_last() =~= dv.subrange(0, r as int));
            assert(prefix.last() == dv[r as int]);
            assert(grid_entries(prefix) == grid_entries(dv.subrange(0, r as int)) + row_entries(
                dv[r as int],
                r as nat,
            ));
        }
        r = r + 1;
    }
    proof {
        assert(dv.subrange(0, dv.len() as int) =~= dv);
    }
    archive_finish(archive)
}

} // verus!
