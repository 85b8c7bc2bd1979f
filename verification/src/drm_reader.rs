//! The read engine of a privileged process: which device it opens and which pictures it
//! copies out.
//!
//! The pixels are parsed with full privileges here, so nothing that comes from outside is
//! trusted: a device path has to lie under `/dev/dri`, and a picture has to be sane.

use crate::common::{ErrorKind, IoError};
use crate::drm::capture::{grab_failure, FrameInfo};
use crate::drm::config::{has_nul, DrmConfig};
use crate::errno::is_transient_errno;
use crate::fourcc::has_32bpp;
use vstd::prelude::*;

verus! {

/// The largest width and height of a picture that is copied.
pub const MAX_DIM: u32 = 16384;

/// `/dev/dri/` in bytes.
pub open spec fn dri_prefix() -> Seq<u8> {
    seq![47u8, 100u8, 101u8, 118u8, 47u8, 100u8, 114u8, 105u8, 47u8]
}

/// Whether a canonical path is a node directly under `/dev/dri`.
pub open spec fn is_dri_node(path: Seq<u8>) -> bool {
    let n = dri_prefix().len() as int;
    &&& path.len() > n
    &&& path.take(n) == dri_prefix()
    &&& !path.skip(n).contains(47u8)
}

/// The path that canonicalizing gave, as bytes.
pub open spec fn path_of(canonical: Option<&[u8]>) -> Option<Seq<u8>> {
    match canonical {
        Some(p) => Some(p@),
        None => None,
    }
}

/// Whether a path that canonicalizes so may be opened.
pub open spec fn gate(canonical: Option<Seq<u8>>) -> bool {
    match canonical {
        Some(p) => is_dri_node(p),
        None => false,
    }
}

/// Whether a device path leads to a node directly under `/dev/dri`. `canonical` is the path
/// in canonical form (absolute, links resolved), `None` where it has none.
pub fn device_under_dev_dri(canonical: Option<&[u8]>) -> (r: bool)
    ensures
        r == gate(path_of(canonical)),
{
    let path = match canonical {
        Some(p) => p,
        None => {
            return false;
        },
    };
    let prefix: &[u8] = "/dev/dri/".as_bytes();
    proof {
        reveal_strlit("/dev/dri/");
        broadcast use vstd::string::is_ascii_spec_bytes;

        assert(vstd::string::is_ascii("/dev/dri/"));
        assert(prefix@ =~= dri_prefix());
    }
    if path.len() <= prefix.len() {
        return false;
    }
    let mut i: usize = 0;
    while i < prefix.len()
        invariant
            i <= prefix@.len(),
            path_of(canonical) == Some(path@),
            prefix@ == dri_prefix(),
            prefix@.len() < path@.len(),
            forall|j: int| 0 <= j < i ==> path@[j] == prefix@[j],
        decreases prefix@.len() - i,
    {
        if path[i] != prefix[i] {
            assert(path@.take(dri_prefix().len() as int)[i as int] != dri_prefix()[i as int]);
            return false;
        }
        i = i + 1;
    }
    assert(path@.take(dri_prefix().len() as int) =~= dri_prefix());
    let ghost rest = path@.skip(dri_prefix().len() as int);
    while i < path.len()
        invariant
            path_of(canonical) == Some(path@),
            prefix@ == dri_prefix(),
            rest == path@.skip(dri_prefix().len() as int),
            prefix@.len() <= i <= path@.len(),
            forall|j: int| prefix@.len() <= j < i ==> path@[j] != 47u8,
        decreases path@.len() - i,
    {
        if path[i] == 47 {
            assert(rest[i - prefix@.len()] == 47u8);
            return false;
        }
        i = i + 1;
    }
    assert(!rest.contains(47u8)) by {
        if rest.contains(47u8) {
            let k = choose|k: int| 0 <= k < rest.len() && rest[k] == 47u8;
            assert(path@[k + dri_prefix().len()] == 47u8);
        }
    }
    true
}

/// An open read context.
#[derive(Debug)]
pub struct DrmReader {
    /// The picture copied last. What it has allocated is kept from one picture to the next.
    pub buf: Vec<u8>,
}

/// Whether a configuration asks for this device, an active CRTC, and no debug output.
pub open spec fn plain_config(c: DrmConfig, device: Option<Seq<char>>) -> bool {
    &&& crate::drm::config::device_text(c.device_path) == device
    &&& c.crtc_id == 0
    &&& c.debug == 0
}

/// Whether a requested device may be opened.
pub open spec fn device_allowed(device: Seq<char>, canonical: Option<Seq<u8>>) -> bool {
    gate(canonical) && !device.contains('\0')
}

/// What canonicalizing gave, as bytes.
pub open spec fn bytes_of(canonical: Option<Vec<u8>>) -> Option<Seq<u8>> {
    match canonical {
        Some(p) => Some(p@),
        None => None,
    }
}

/// Whether a picture is one of 32 bits a pixel and of a sane size, and its rows do not
/// overlap.
pub open spec fn supported(info: FrameInfo) -> bool {
    &&& crate::fourcc::is_32bpp(info.format)
    &&& 0 < info.width <= MAX_DIM
    &&& 0 < info.height <= MAX_DIM
    &&& info.stride >= info.width * 4
}

/// What a grab gives.
pub open spec fn grab_outcome(ret: int, info: FrameInfo) -> Result<(), (ErrorKind, Seq<char>)> {
    if ret < 0 && crate::errno::transient(ret) {
        Err((ErrorKind::WouldBlock, Seq::empty()))
    } else if ret < 0 {
        Err(crate::drm::capture::grab_error(ret))
    } else if !info.mapped {
        Err((ErrorKind::WouldBlock, Seq::empty()))
    } else if !supported(info) {
        Err((ErrorKind::Other, "unsupported DRM scanout format"@))
    } else {
        Ok(())
    }
}

impl DrmReader {
    /// The configuration to open a device with, `None` if it must not be opened. No device
    /// means that one is detected. `canonical` is the requested path in canonical form.
    pub fn open_config(device: Option<&str>, canonical: Option<&[u8]>) -> (r: Option<DrmConfig>)
        ensures
            match device {
                None => r matches Some(c) && plain_config(c, None),
                Some(d) => if device_allowed(d@, path_of(canonical)) {
                    r matches Some(c) && plain_config(c, Some(d@))
                } else {
                    r is None
                },
            },
    {
        let device_path: Option<String> = match device {
            None => None,
            Some(d) => {
                if !device_under_dev_dri(canonical) {
                    return None;
                }
                if has_nul(d) {
                    return None;
                }
                Some(d.to_owned())
            },
        };
        Some(DrmConfig { device_path, crtc_id: 0, debug: 0 })
    }

    /// Opens a reader. `loaded` says whether the capture library could be loaded,
    /// `canonicalize` gives the canonical form of a path, and `open_ctx` opens a context and
    /// says whether it could. A context is opened only for a device that may be opened.
    pub fn open<C: FnOnce(&str) -> Option<Vec<u8>>, O: FnOnce(&DrmConfig) -> bool>(
        loaded: bool,
        device: Option<&str>,
        canonicalize: C,
        open_ctx: O,
    ) -> (r: Option<DrmReader>)
        requires
            loaded ==> (device matches Some(d) ==> canonicalize.requires((d,))),
            loaded ==> forall|c: DrmConfig|
                (match device {
                    None => plain_config(c, None),
                    Some(d) => plain_config(c, Some(d@)) && exists|p: Option<Vec<u8>>| #[trigger]
                        canonicalize.ensures((d,), p) && device_allowed(d@, bytes_of(p)),
                }) ==> #[trigger] open_ctx.requires((&c,)),
        ensures
            !loaded ==> r is None,
            r matches Some(reader) ==> reader.buf@ == Seq::<u8>::empty(),
            loaded ==> match device {
                None => exists|c: DrmConfig, ok: bool| #[trigger]
                    open_ctx.ensures((&c,), ok) && plain_config(c, None) && (r is Some <==> ok),
                Some(d) => exists|p: Option<Vec<u8>>| #[trigger]
                    canonicalize.ensures((d,), p) && if device_allowed(d@, bytes_of(p)) {
                        exists|c: DrmConfig, ok: bool| #[trigger]
                            open_ctx.ensures((&c,), ok) && plain_config(c, Some(d@)) && (r is Some
                                <==> ok)
                    } else {
                        r is None
                    },
            },
    {
        if !loaded {
            return None;
        }
        let config: Option<DrmConfig> = match device {
            None => Self::open_config(None, None),
            Some(d) => {
                let p: Option<Vec<u8>> = canonicalize(d);
                match &p {
                    Some(path) => Self::open_config(device, Some(path.as_slice())),
                    None => Self::open_config(device, None),
                }
            },
        };
        let config = match config {
            Some(c) => c,
            None => {
                return None;
            },
        };
        if !open_ctx(&config) {
            return None;
        }
        Some(DrmReader { buf: Vec::new() })
    }

    /// Takes in a grab: `ret` and `info` are what it returned, `data` the bytes it mapped.
    /// The picture comes back tightly packed, with its width and height. A transient failure
    /// asks for a retry; any other failure, and a picture that is not supported, is a hard
    /// error, on which the caller turns to another backend.
    pub fn grab(&mut self, ret: i32, info: &FrameInfo, data: &[u8]) -> (r: Result<
        (&[u8], usize, usize),
        IoError,
    >)
        requires
            grab_outcome(ret as int, *info) is Ok ==> crate::pixels::source_len(
                info.width as nat,
                info.height as nat,
                info.stride as nat,
            ) <= data@.len(),
        ensures
            match grab_outcome(ret as int, *info) {
                Ok(_) => {
                    &&& final(self).buf@ == info.picture(data@)
                    &&& r matches Ok(f)
                    &&& f.0@ == info.picture(data@)
                    &&& f.1 == info.width
                    &&& f.2 == info.height
                },
                Err(e) => {
                    &&& final(self).buf@ == old(self).buf@
                    &&& r matches Err(f)
                    &&& f@ == e
                },
            },
    {
        if ret < 0 {
            if is_transient_errno(ret) {
                return Err(IoError::would_block());
            }
            return Err(grab_failure(ret));
        }
        if !info.mapped {
            return Err(IoError::would_block());
        }
        if !has_32bpp(info.format) || info.width == 0 || info.height == 0 || info.width > MAX_DIM
            || info.height > MAX_DIM || (info.stride as u64) < (info.width as u64) * 4 {
            return Err(IoError::new(ErrorKind::Other, "unsupported DRM scanout format"));
        }
        proof {
            lemma_supported_size(*info);
        }
        let w: usize = info.width as usize;
        let h: usize = info.height as usize;
        crate::pixels::pack_rows(&mut self.buf, data, w, h, info.stride as usize);
        Ok((self.buf.as_slice(), w, h))
    }
}

/// A supported picture takes at most a gibibyte, and `stride * height` bytes hold it: no
/// byte behind the mapping is read.
pub proof fn lemma_supported_size(info: FrameInfo)
    requires
        supported(info),
    ensures
        crate::pixels::packed_len(info.width as nat, info.height as nat) <= 0x4000_0000,
        crate::pixels::source_len(info.width as nat, info.height as nat, info.stride as nat)
            <= info.stride * info.height,
{
    let w = info.width as int;
    let h = info.height as int;
    let stride = info.stride as int;
    assert(w * 4 * h <= 0x4000_0000) by (nonlinear_arith)
        requires
            0 < w <= 16384,
            0 < h <= 16384,
    ;
    assert((h - 1) * stride + w * 4 <= stride * h) by (nonlinear_arith)
        requires
            w * 4 <= stride,
    ;
}

/// A path outside `/dev/dri` never passes, nor one further down.
pub proof fn lemma_gate(path: Seq<u8>, name: Seq<u8>)
    ensures
        path == dri_prefix() + name ==> (gate(Some(path)) <==> name.len() > 0 && !name.contains(
            47u8,
        )),
        gate(Some(path)) ==> path == dri_prefix() + path.skip(dri_prefix().len() as int),
        !gate(None),
{
    let n = dri_prefix().len() as int;
    if path == dri_prefix() + name {
        assert(path.take(n) =~= dri_prefix());
        assert(path.skip(n) =~= name);
    }
    if gate(Some(path)) {
        assert(path =~= path.take(n) + path.skip(n));
    }
}

} // verus!
