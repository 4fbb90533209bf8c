//! Unix paths, as the bytes that they are made of.

use vstd::prelude::*;

verus! {

/// The byte between the parts of a path.
pub const SLASH: u8 = 0x2f;

/// `name` within the directory `dir`. An absolute name stands for itself.
pub open spec fn path_in(dir: Seq<u8>, name: Seq<u8>) -> Seq<u8> {
    if name.len() > 0 && name[0] == SLASH {
        name
    } else if dir.len() == 0 || dir.last() == SLASH {
        dir + name
    } else {
        dir.push(SLASH) + name
    }
}

/// The path of `name` within the directory `dir`.
pub fn join(dir: &[u8], name: &[u8]) -> (r: Vec<u8>)
    ensures
        r@ == path_in(dir@, name@),
{
    let n: usize = dir.len();
    let m: usize = name.len();
    if m > 0 && name[0] == SLASH {
        return vstd::slice::slice_to_vec(name);
    }
    let mut r: Vec<u8> = vstd::slice::slice_to_vec(dir);
    if n > 0 && dir[n - 1] != SLASH {
        r.push(SLASH);
    }
    r.extend_from_slice(name);
    assert(r@ =~= path_in(dir@, name@));
    r
}

/// A name without a slash gives a path directly within the directory: the path starts
/// with the directory, and what follows its last slash is the name.
pub proof fn law_joined_path_is_in_the_directory(dir: Seq<u8>, name: Seq<u8>)
    requires
        !name.contains(SLASH),
    ensures
        dir.is_prefix_of(path_in(dir, name)),
        name.is_suffix_of(path_in(dir, name)),
        ({
            let at = path_in(dir, name).len() - name.len();
            at == 0 || path_in(dir, name)[at - 1] == SLASH
        }),
{
    if name.len() > 0 {
        assert(name.contains(name[0]));
    }
    assert(dir =~= path_in(dir, name).subrange(0, dir.len() as int));
    let p = path_in(dir, name);
    assert(name =~= p.subrange(p.len() - name.len(), p.len() as int));
}

/// Joining puts one slash between the two, unless the directory brings one or there is no
/// directory to speak of; an absolute name replaces the directory.
pub proof fn law_joining_adds_one_slash(dir: Seq<u8>, name: Seq<u8>)
    ensures
        name.len() > 0 && name[0] == 47 ==> path_in(dir, name) == name,
        !(name.len() > 0 && name[0] == 47) ==> ({
            let p = path_in(dir, name);
            if dir.len() > 0 && dir[dir.len() - 1] != 47 {
                &&& p.len() == dir.len() + 1 + name.len()
                &&& p[dir.len() as int] == 47
                &&& p.subrange(0, dir.len() as int) == dir
                &&& p.subrange((dir.len() + 1) as int, p.len() as int) == name
            } else {
                &&& p.len() == dir.len() + name.len()
                &&& p.subrange(0, dir.len() as int) == dir
                &&& p.subrange(dir.len() as int, p.len() as int) == name
            }
        }),
{
    let p = path_in(dir, name);
    if !(name.len() > 0 && name[0] == 47) {
        assert(p.subrange(0, dir.len() as int) =~= dir);
        assert(p.subrange(p.len() - name.len(), p.len() as int) =~= name);
    }
}

} // verus!
