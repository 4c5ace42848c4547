//! The error numbers of the host that mounting reports and recognises.

use vstd::prelude::*;

verus! {

/// Error numbers of the host's C library. They differ between machines, so what
/// needs one takes the table.
#[derive(Debug, Clone, Copy)]
pub struct ErrnoTable {
    /// `EINVAL`: an invalid argument.
    pub einval: i32,
    /// `EIO`: an input or output error.
    pub eio: i32,
    /// `EILSEQ`, by which callers know a wrong fs-verity digest.
    pub eilseq: i32,
    /// `ENOTTY`, by which callers know a missing fs-verity digest.
    pub enotty: i32,
    /// `ENODATA`: no data available.
    pub enodata: i32,
    /// `EOPNOTSUPP`: an operation that is not supported.
    pub eopnotsupp: i32,
}

impl ErrnoTable {
    /// Whether no two numbers are the same.
    pub open spec fn distinct(self) -> bool {
        let all = seq![
            self.einval,
            self.eio,
            self.eilseq,
            self.enotty,
            self.enodata,
            self.eopnotsupp,
        ];
        forall|i: int, j: int| 0 <= i < j < 6 ==> #[trigger] all[i] != #[trigger] all[j]
    }

    /// Whether these are the numbers of Linux on some architecture. Three of them are
    /// the same everywhere; the others are those of most architectures, of MIPS or of
    /// SPARC.
    pub open spec fn of_linux(self) -> bool {
        &&& self.einval == 22
        &&& self.eio == 5
        &&& self.enotty == 25
        &&& {
            ||| self.eilseq == 84 && self.enodata == 61 && self.eopnotsupp == 95
            ||| self.eilseq == 88 && self.enodata == 61 && self.eopnotsupp == 122
            ||| self.eilseq == 122 && self.enodata == 111 && self.eopnotsupp == 45
        }
    }

    /// The number that reports an image whose fs-verity digest is not the
    /// expected one.
    pub open spec fn wrong_verity(self) -> i32 {
        self.eilseq
    }

    /// The number that reports an image without an fs-verity digest.
    pub open spec fn no_verity(self) -> i32 {
        self.enotty
    }

    /// The numbers of this host.
    pub fn host() -> (table: Self)
        ensures
            table.of_linux(),
            table.distinct(),
    {
        host_errnos()
    }
}

/// Trusted: the constants of the `libc` crate are the numbers of Linux, the only
/// system that has all that this crate is built with. Which architecture's they are
/// depends on the machine and is left unsaid.
#[verifier::external_body]
fn host_errnos() -> (table: ErrnoTable)
    ensures
        table.of_linux(),
{
    ErrnoTable {
        einval: libc::EINVAL,
        eio: libc::EIO,
        eilseq: libc::EILSEQ,
        enotty: libc::ENOTTY,
        enodata: libc::ENODATA,
        eopnotsupp: libc::EOPNOTSUPP,
    }
}

} // verus!
