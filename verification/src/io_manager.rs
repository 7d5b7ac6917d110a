//! Page-granularity access to table files.
//!
//! An [`IOManager`] maps each table name to one backing file,
//! `<tables_parent_directory>/<table>.tbl`, holding a whole number of
//! [`PAGE_SIZE`]-byte pages addressed purely by `offset = page_no * PAGE_SIZE`.
//!
//! The functions here state and verify the byte-level effect of every file
//! operation over an image of the file's contents: what an append does to
//! the file and which page number it reports, what an in-place overwrite
//! does, and what a page read returns.  The caller owns the actual file
//! handling and applies these operations to the real file's bytes.

use crate::page::page_decodes_to;
use crate::page::Page;
use crate::page::PAGE_SIZE;
use vstd::prelude::*;
use vstd::slice::slice_subrange;
use vstd::string::StringExecFns;

verus! {

/// Maps table names to backing files under one parent directory.  Holds no
/// cache and no open file: every operation works on a freshly obtained image
/// of one table's bytes.
pub struct IOManager {
    pub tables_parent_directory: String,
}

impl IOManager {
    /// A manager whose table files live under `tables_parent_directory`.
    pub fn new(tables_parent_directory: String) -> (r: IOManager)
        ensures
            r.tables_parent_directory == tables_parent_directory,
    {
        IOManager { tables_parent_directory }
    }

    /// The path of the file backing `table_name`:
    /// `<tables_parent_directory>/<table_name>.tbl`.
    pub fn table_file_path(&self, table_name: &str) -> (r: String)
        ensures
            r@ == self.tables_parent_directory@ + "/"@ + table_name@ + ".tbl"@,
    {
        let mut path = self.tables_parent_directory.clone();
        path.append("/");
        path.append(table_name);
        path.append(".tbl");
        path
    }
}

/// Byte offset of page `page_no` inside a table file.
pub fn page_file_offset(page_no: u64) -> (r: u64)
    requires
        page_no * PAGE_SIZE <= u64::MAX,
    ensures
        r == page_no * PAGE_SIZE,
{
    page_no * (PAGE_SIZE as u64)
}

/// The number a page has after being appended to a table file that has
/// grown to `file_len` bytes: the file now holds `file_len / PAGE_SIZE`
/// pages and the appended page is the last of them.
pub fn appended_page_no(file_len: u64) -> (r: u64)
    requires
        file_len >= PAGE_SIZE,
    ensures
        r == file_len as int / (PAGE_SIZE as int) - 1,
{
    file_len / (PAGE_SIZE as u64) - 1
}

/// Appends one serialized page to the image of a table file and returns the
/// number the appended page now has: the file holds `len / PAGE_SIZE` pages
/// afterwards and the new page is the last of them.
pub fn insert_page(file: &mut Vec<u8>, page_bytes: &[u8]) -> (r: u64)
    requires
        page_bytes@.len() == PAGE_SIZE,
        old(file)@.len() as int % (PAGE_SIZE as int) == 0,
        old(file)@.len() + PAGE_SIZE <= usize::MAX,
    ensures
        final(file)@ == old(file)@ + page_bytes@,
        final(file)@.len() as int % (PAGE_SIZE as int) == 0,
        r == old(file)@.len() as int / (PAGE_SIZE as int),
        r == final(file)@.len() as int / (PAGE_SIZE as int) - 1,
{
    let ghost old_len: int = file@.len() as int;
    let mut k: usize = 0;
    while k < PAGE_SIZE
        invariant
            k <= PAGE_SIZE,
            page_bytes@.len() == PAGE_SIZE,
            old_len + PAGE_SIZE <= usize::MAX,
            file@ == old(file)@ + page_bytes@.subrange(0, k as int),
            old_len == old(file)@.len(),
        decreases PAGE_SIZE - k,
    {
        file.push(page_bytes[k]);
        proof {
            assert(file@ =~= old(file)@ + page_bytes@.subrange(0, k + 1));
        }
        k = k + 1;
    }
    proof {
        assert(file@ =~= old(file)@ + page_bytes@);
    }
    let new_len = file.len();
    let new_page_no = (new_len / PAGE_SIZE - 1) as u64;
    proof {
        let p: int = PAGE_SIZE as int;
        let q: int = old_len / p;
        vstd::arithmetic::div_mod::lemma_fundamental_div_mod(old_len, p);
        assert(old_len == p * q);
        assert((p * q + p) == p * (q + 1)) by (nonlinear_arith);
        vstd::arithmetic::div_mod::lemma_div_multiples_vanish(q + 1, p);
        assert((old_len + p) / p == q + 1);
        assert((old_len + p) % p == 0) by {
            vstd::arithmetic::div_mod::lemma_fundamental_div_mod((old_len + p), p);
        }
    }
    new_page_no
}

/// Writes the serialized form of `page` over page number `page.id` inside
/// the image of a table file, first extending the image with zero bytes
/// wherever it does not yet reach that page.  Every byte outside the page's
/// range keeps its value.
pub fn flush_page(file: &mut Vec<u8>, page: &Page)
    requires
        page.has_page_dims(),
        (page.id + 1) * PAGE_SIZE <= usize::MAX,
    ensures
        final(file)@.len() == if old(file)@.len() >= (page.id + 1) * PAGE_SIZE {
            old(file)@.len() as int
        } else {
            (page.id + 1) * (PAGE_SIZE as int)
        },
        final(file)@.subrange(
            page.id * PAGE_SIZE,
            page.id * PAGE_SIZE + PAGE_SIZE,
        ) == page.spec_bytes(),
        forall|j: int|
            0 <= j < final(file)@.len() && !(page.id * PAGE_SIZE <= j < page.id * PAGE_SIZE
                + PAGE_SIZE) ==> final(file)@[j] == if j < old(file)@.len() {
                old(file)@[j]
            } else {
                0u8
            },
{
    proof {
        assert(page.id * PAGE_SIZE + PAGE_SIZE == (page.id + 1) * PAGE_SIZE) by (nonlinear_arith);
    }
    let offset = (page.id as usize) * PAGE_SIZE;
    let bytes = page.to_bytes();
    while file.len() < offset + PAGE_SIZE
        invariant
            offset + PAGE_SIZE <= usize::MAX,
            file@.len() >= old(file)@.len(),
            file@.len() == old(file)@.len() || (old(file)@.len() < offset + PAGE_SIZE && file@.len()
                <= offset + PAGE_SIZE),
            forall|j: int| 0 <= j < old(file)@.len() ==> file@[j] == old(file)@[j],
            forall|j: int| old(file)@.len() <= j < file@.len() ==> file@[j] == 0u8,
        decreases offset + PAGE_SIZE - file@.len(),
    {
        file.push(0u8);
    }
    crate::page::write_bytes_at(file, offset, bytes.as_slice());
    proof {
        assert(file@.subrange(page.id * PAGE_SIZE, page.id * PAGE_SIZE + PAGE_SIZE)
            =~= page.spec_bytes());
    }
}

/// Reads page `page_no` back from the image of a table file.  Yields nothing
/// when the file is too short to hold that whole page.
pub fn read_page(file: &[u8], page_no: u64) -> (r: Option<Page>)
    ensures
        match r {
            Some(p) => (page_no + 1) * PAGE_SIZE <= file@.len() && page_decodes_to(
                file@.subrange(page_no * PAGE_SIZE, page_no * PAGE_SIZE + PAGE_SIZE),
                p,
            ),
            None => (page_no + 1) * PAGE_SIZE > file@.len(),
        },
{
    let len = file.len();
    let pages_in_file = (len / PAGE_SIZE) as u64;
    proof {
        let p: int = PAGE_SIZE as int;
        vstd::arithmetic::div_mod::lemma_fundamental_div_mod(len as int, p);
    }
    if page_no >= pages_in_file {
        proof {
            let p: int = PAGE_SIZE as int;
            let q: int = len as int / p;
            vstd::arithmetic::mul::lemma_mul_inequality(q + 1, page_no + 1, p);
            assert(q * p + p == (q + 1) * p) by (nonlinear_arith);
            assert(q * p + p > len);
        }
        return None;
    }
    proof {
        let p: int = PAGE_SIZE as int;
        let q: int = len as int / p;
        vstd::arithmetic::mul::lemma_mul_inequality(page_no + 1, q, p);
        assert(q * p <= len);
        assert(page_no * p + p == (page_no + 1) * p) by (nonlinear_arith);
    }
    let offset = (page_no as usize) * PAGE_SIZE;
    let window = slice_subrange(file, offset, offset + PAGE_SIZE);
    match Page::from_bytes(window) {
        Ok(p) => Some(p),
        Err(_) => None,
    }
}

} // verus!
