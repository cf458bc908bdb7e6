use vstd::prelude::*;

verus! {

/// First magic word of the base-revision marker.
pub const BASE_REVISION_MAGIC_0: u64 = 0xf9562b2d5c95a6c8;

/// Second magic word of the base-revision marker.
pub const BASE_REVISION_MAGIC_1: u64 = 0x6a7b384944536bdc;

/// The base revision of the protocol that this kernel asks for.
pub const BASE_REVISION: u64 = 3;

/// The four words that identify a framebuffer request.
pub const FRAMEBUFFER_REQUEST_ID_0: u64 = 0xc7b1dd30df4c8b88;

pub const FRAMEBUFFER_REQUEST_ID_1: u64 = 0x0a82e883a194f07b;

pub const FRAMEBUFFER_REQUEST_ID_2: u64 = 0x9d5827dcd881dd75;

pub const FRAMEBUFFER_REQUEST_ID_3: u64 = 0xa3148604f6fab11b;

/// The four words of the marker that opens the requests section.
pub const REQUESTS_START_MARKER_0: u64 = 0xf6b8f4b39de7d1ae;

pub const REQUESTS_START_MARKER_1: u64 = 0xfab91a6940fcb9cf;

pub const REQUESTS_START_MARKER_2: u64 = 0x785c6ed015d3e316;

pub const REQUESTS_START_MARKER_3: u64 = 0x181e920a7852b9d9;

/// The two words of the marker that closes the requests section.
pub const REQUESTS_END_MARKER_0: u64 = 0xadc0e0531bb10d03;

pub const REQUESTS_END_MARKER_1: u64 = 0x9572709f31764c62;

/// A framebuffer described by the bootloader, in the protocol's field order.
/// Addresses are held as integers.
#[derive(Clone, Copy, Debug, PartialEq, Eq)]
pub struct Framebuffer {
    pub address: u64,
    pub width: u64,
    pub height: u64,
    pub pitch: u64,
    pub bits_per_pixel: u16,
    pub memory_model: u8,
    pub red_mask_size: u8,
    pub red_mask_shift: u8,
    pub green_mask_size: u8,
    pub green_mask_shift: u8,
    pub blue_mask_size: u8,
    pub blue_mask_shift: u8,
    pub unused: [u8; 7],
    pub edid_size: u64,
    pub edid: u64,
}

/// The bootloader's response to a framebuffer request: its revision, the
/// number of framebuffers it declares, and the framebuffers themselves.
#[derive(Debug)]
pub struct FramebufferResponse {
    pub revision: u64,
    pub framebuffer_count: u64,
    pub framebuffers: Vec<Framebuffer>,
}

impl FramebufferResponse {
    /// Every framebuffer that the response declares is present.
    pub open spec fn wf(&self) -> bool {
        self.framebuffer_count <= self.framebuffers@.len()
    }
}

/// A request for a framebuffer: its identifying words, its revision, and the
/// response, which the bootloader fills in (`None` until it does).
#[derive(Debug)]
pub struct FramebufferRequest {
    pub id: [u64; 4],
    pub revision: u64,
    pub response: Option<FramebufferResponse>,
}

/// The identifying words of a framebuffer request, in order.
pub open spec fn framebuffer_request_id() -> Seq<u64> {
    seq![
        FRAMEBUFFER_REQUEST_ID_0,
        FRAMEBUFFER_REQUEST_ID_1,
        FRAMEBUFFER_REQUEST_ID_2,
        FRAMEBUFFER_REQUEST_ID_3,
    ]
}

impl FramebufferRequest {
    /// A response, where there is one, declares no framebuffer it lacks.
    pub open spec fn wf(&self) -> bool {
        self.response matches Some(resp) ==> resp.wf()
    }

    /// The bootloader has answered with at least one framebuffer.
    pub open spec fn has_framebuffer(&self) -> bool {
        self.response matches Some(resp) && resp.framebuffer_count >= 1
    }

    /// A framebuffer request of revision `0`, not yet answered.
    pub fn new() -> (r: FramebufferRequest)
        ensures
            r.id@ == framebuffer_request_id(),
            r.revision == 0,
            r.response is None,
    {
        let r = FramebufferRequest {
            id: [
                FRAMEBUFFER_REQUEST_ID_0,
                FRAMEBUFFER_REQUEST_ID_1,
                FRAMEBUFFER_REQUEST_ID_2,
                FRAMEBUFFER_REQUEST_ID_3,
            ],
            revision: 0,
            response: None,
        };
        assert(r.id@ =~= framebuffer_request_id());
        r
    }

    /// The first framebuffer of the response. `None` where the bootloader
    /// gave no response, or a response that declares no framebuffer.
    pub fn first_framebuffer(&self) -> (r: Option<&Framebuffer>)
        requires
            self.wf(),
        ensures
            r is Some <==> self.has_framebuffer(),
            r matches Some(fb) ==> *fb == self.response->0.framebuffers@[0],
    {
        match &self.response {
            None => None,
            Some(resp) => {
                if resp.framebuffer_count < 1 {
                    None
                } else {
                    Some(&resp.framebuffers[0])
                }
            },
        }
    }
}

/// The base-revision marker: two magic words, then the revision asked for,
/// which the bootloader overwrites with `0` where it supports it.
#[derive(Clone, Copy, Debug, PartialEq, Eq)]
pub struct BaseRevision {
    pub words: [u64; 3],
}

impl BaseRevision {
    /// A marker that asks for `revision`.
    pub fn new(revision: u64) -> (r: BaseRevision)
        ensures
            r.words@ == seq![BASE_REVISION_MAGIC_0, BASE_REVISION_MAGIC_1, revision],
    {
        let r = BaseRevision { words: [BASE_REVISION_MAGIC_0, BASE_REVISION_MAGIC_1, revision] };
        assert(r.words@ =~= seq![BASE_REVISION_MAGIC_0, BASE_REVISION_MAGIC_1, revision]);
        r
    }

    /// The bootloader has acknowledged the revision: the third word is `0`.
    pub open spec fn supported(&self) -> bool {
        self.words@[2] == 0
    }

    /// Whether the bootloader supports the revision asked for.
    pub fn is_revision_supported(&self) -> (r: bool)
        ensures
            r == self.supported(),
    {
        self.words[2] == 0
    }
}

/// The marker that opens the requests section.
pub fn requests_start_marker() -> (r: [u64; 4])
    ensures
        r@ == seq![
            REQUESTS_START_MARKER_0,
            REQUESTS_START_MARKER_1,
            REQUESTS_START_MARKER_2,
            REQUESTS_START_MARKER_3,
        ],
{
    let r = [
        REQUESTS_START_MARKER_0,
        REQUESTS_START_MARKER_1,
        REQUESTS_START_MARKER_2,
        REQUESTS_START_MARKER_3,
    ];
    assert(r@ =~= seq![
        REQUESTS_START_MARKER_0,
        REQUESTS_START_MARKER_1,
        REQUESTS_START_MARKER_2,
        REQUESTS_START_MARKER_3,
    ]);
    r
}

/// The marker that closes the requests section.
pub fn requests_end_marker() -> (r: [u64; 2])
    ensures
        r@ == seq![REQUESTS_END_MARKER_0, REQUESTS_END_MARKER_1],
{
    let r = [REQUESTS_END_MARKER_0, REQUESTS_END_MARKER_1];
    assert(r@ =~= seq![REQUESTS_END_MARKER_0, REQUESTS_END_MARKER_1]);
    r
}

} // verus!
