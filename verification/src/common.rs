use vstd::prelude::*;

verus! {

/// Number of bytes in the path of a Unix socket address.
pub const SUN_PATH_LEN: usize = 108;

/// The path field that a socket address gets for `path`: the bytes of `path`, cut so that at
/// least one zero byte follows them, then zero bytes up to the length of the field.
pub open spec fn sun_path_of(path: Seq<u8>) -> Seq<i8> {
    Seq::new(
        SUN_PATH_LEN as nat,
        |i: int|
            if i < path.len() && i < SUN_PATH_LEN - 1 {
                path[i] as i8
            } else {
                0i8
            },
    )
}

/// The address of a Unix socket, as the kernel lays it out: the address family and a path of
/// fixed length that ends in a zero byte.
#[derive(Clone, Copy, Debug, PartialEq, Eq)]
pub struct SockaddrUn {
    sun_family: u16,
    sun_path: [i8; 108],
}

impl SockaddrUn {
    /// The address family.
    pub closed spec fn spec_family(&self) -> u16 {
        self.sun_family
    }

    /// The bytes of the path field.
    pub closed spec fn spec_path(&self) -> Seq<i8> {
        self.sun_path@
    }

    /// The address of the socket at `sun_path` in the family `sun_family`. A path that does
    /// not fit is cut. The path holds no zero byte.
    pub fn new(sun_family: u16, sun_path: Vec<u8>) -> (r: Self)
        requires
            forall|i: int| 0 <= i < sun_path@.len() ==> sun_path@[i] != 0,
        ensures
            r.spec_family() == sun_family,
            r.spec_path() == sun_path_of(sun_path@),
    {
        let mut arr: [i8; 108] = [0i8; 108];
        let len = sun_path.len();
        let sz: usize = if len > SUN_PATH_LEN - 1 {
            SUN_PATH_LEN - 1
        } else {
            len
        };
        let mut i: usize = 0;
        while i < sz
            invariant
                i <= sz,
                sz <= SUN_PATH_LEN - 1,
                sz <= sun_path@.len(),
                arr@.len() == SUN_PATH_LEN,
                forall|j: int| 0 <= j < i ==> arr@[j] == sun_path@[j] as i8,
                forall|j: int| i <= j < SUN_PATH_LEN ==> arr@[j] == 0i8,
            decreases sz - i,
        {
            arr[i] = sun_path[i] as i8;
            i = i + 1;
        }
        assert(arr@ =~= sun_path_of(sun_path@));
        SockaddrUn { sun_family, sun_path: arr }
    }

    /// The address family.
    pub fn sun_family(&self) -> (r: u16)
        ensures
            r == self.spec_family(),
    {
        self.sun_family
    }

    /// The bytes of the path field.
    pub fn sun_path(&self) -> (r: [i8; 108])
        ensures
            r@ == self.spec_path(),
    {
        self.sun_path
    }
}

} // verus!
