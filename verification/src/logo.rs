//! The logo in the window's corner.

use crate::front_end::{law_front_end_holds_its_fields, AppModel, WireSmartApp};
use vstd::prelude::*;

verus! {

/// What the image decoder makes of `bytes`: the width, the height and the pixels
/// of the image, row by row, four bytes each. `None` where it is no image.
pub uninterp spec fn decoded(bytes: Seq<u8>) -> Option<(u32, u32, Seq<u8>)>;

/// Calls `image::load_from_memory`, and has the image as 8-bit RGBA through
/// `DynamicImage::to_rgba8`. The result depends on the bytes alone: nothing in
/// this program registers a decoding hook with the `image` crate. There are four
/// bytes to each pixel. Which image the bytes encode is left to the name
/// `decoded`.
#[verifier::external_body]
fn decode(bytes: &[u8]) -> (res: Option<(u32, u32, Vec<u8>)>)
    ensures
        match res {
            Some((width, height, pixels)) => decoded(bytes@) == Some((width, height, pixels@)),
            None => decoded(bytes@) is None,
        },
        res matches Some((width, height, pixels)) ==> pixels@.len() == 4 * width * height,
{
    let rgba = image::load_from_memory(bytes).ok()?.to_rgba8();
    Some((rgba.width(), rgba.height(), rgba.into_raw()))
}

/// An image for the screen.
#[derive(Debug)]
pub struct Picture {
    /// Width and height.
    pub size: [usize; 2],
    /// Red, green, blue and alpha of each pixel, row by row.
    pub pixels: Vec<u8>,
}

impl Picture {
    /// Four bytes to each pixel.
    pub open spec fn wf(&self) -> bool {
        self.pixels@.len() == 4 * self.size@[0] * self.size@[1]
    }
}

/// Makes a picture of decoded pixels.
pub fn picture(width: u32, height: u32, pixels: Vec<u8>) -> (res: Picture)
    ensures
        res.size@ == seq![width as usize, height as usize],
        res.pixels@ == pixels@,
{
    let res = Picture { size: [width as usize, height as usize], pixels };
    assert(res.size@ =~= seq![width as usize, height as usize]);
    res
}

/// Whether a picture shows a decoded image.
pub open spec fn shows(p: Picture, image: (u32, u32, Seq<u8>)) -> bool {
    p.wf() && p.size@ == seq![image.0 as usize, image.1 as usize] && p.pixels@ == image.2
}

/// Decodes the logo. `None` where the bytes are no image.
pub fn load_logo(bytes: &[u8]) -> (res: Option<Picture>)
    ensures
        match decoded(bytes@) {
            Some(image) => res matches Some(p) && shows(p, image),
            None => res is None,
        },
{
    match decode(bytes) {
        Some((width, height, pixels)) => Some(picture(width, height, pixels)),
        None => None,
    }
}

impl AppModel {
    /// The state after the logo was asked for, where `found` tells whether there
    /// was an image.
    pub open spec fn after_logo(self, found: bool) -> AppModel {
        AppModel { logo_loaded: self.logo_loaded || found, ..self }
    }

    /// Whether a picture is handed out where the logo is asked for.
    pub open spec fn hands_out_logo(self, found: bool) -> bool {
        !self.logo_loaded && found
    }
}

impl WireSmartApp {
    /// Whether the logo is still to be loaded.
    pub fn wants_logo(&self) -> (res: bool)
        ensures
            res == !self@.logo_loaded,
    {
        !self.logo_loaded
    }

    /// Hands out a picture of the logo, unless one was handed out before.
    pub fn take_logo(&mut self, found: Option<Picture>) -> (res: Option<Picture>)
        requires
            old(self).wf(),
        ensures
            final(self).wf(),
            res == if old(self)@.logo_loaded {
                None
            } else {
                found
            },
            res is Some == old(self)@.hands_out_logo(found is Some),
            final(self)@ == old(self)@.after_logo(found is Some),
    {
        if self.logo_loaded {
            return None;
        }
        self.logo_loaded = found.is_some();
        found
    }

    /// Loads the logo, unless it was loaded before. Bytes that are no image
    /// change nothing and are no error.
    pub fn load_logo_once(&mut self, bytes: &[u8]) -> (res: Option<Picture>)
        requires
            old(self).wf(),
        ensures
            final(self).wf(),
            old(self)@.logo_loaded ==> res is None && final(self)@ == old(self)@,
            res is Some == old(self)@.hands_out_logo(decoded(bytes@) is Some),
            !old(self)@.logo_loaded ==> match decoded(bytes@) {
                Some(image) => res matches Some(p) && shows(p, image),
                None => res is None,
            },
            !old(self)@.logo_loaded ==> final(self)@ == old(self)@.after_logo(
                decoded(bytes@) is Some,
            ),
    {
        if !self.wants_logo() {
            return None;
        }
        let found = load_logo(bytes);
        self.take_logo(found)
    }
}

/// How often a picture is handed out where the logo is asked for again and
/// again, and `found` tells whether there was an image each time.
pub open spec fn times_handed_out(app: AppModel, found: Seq<bool>) -> nat
    decreases found.len(),
{
    if found.len() == 0 {
        0
    } else {
        (if app.hands_out_logo(found[0]) {
            1nat
        } else {
            0
        }) + times_handed_out(app.after_logo(found[0]), found.drop_first())
    }
}

/// The logo is loaded at most once, however often it is asked for: once where
/// there is an image at some time and it was not loaded before, else never.
pub proof fn law_logo_is_loaded_once(app: AppModel, found: Seq<bool>)
    ensures
        times_handed_out(app, found) == if !app.logo_loaded && found.contains(true) {
            1nat
        } else {
            0
        },
    decreases found.len(),
{
    if found.len() > 0 {
        let rest = found.drop_first();
        law_logo_is_loaded_once(app.after_logo(found[0]), rest);
        if found.contains(true) && !found[0] {
            let i = choose|i: int| 0 <= i < found.len() && found[i];
            assert(rest[i - 1]);
            assert(rest.contains(true));
        }
        if rest.contains(true) {
            let i = choose|i: int| 0 <= i < rest.len() && rest[i];
            assert(found[i + 1]);
            assert(found.contains(true));
        }
        if found[0] {
            assert(found.contains(true));
        }
    }
}

/// A picture shows an image iff it has the image's width, height and pixels, and
/// four bytes to each pixel.
pub proof fn law_picture(p: Picture, width: u32, height: u32, pixels: Seq<u8>)
    ensures
        shows(p, (width, height, pixels)) <==> p.size@[0] == width && p.size@[1] == height
            && p.pixels@ == pixels && pixels.len() == 4 * width * height,
{
    assert(p.size@ =~= seq![p.size@[0], p.size@[1]]);
}

/// What `load_logo_once` returns: the picture of the image, where there is one and it
/// was not loaded before. Nothing but that is remembered.
pub proof fn law_logo_returned(app: &mut WireSmartApp, bytes: &[u8], res: Option<Picture>)
    requires
        call_ensures(WireSmartApp::load_logo_once, (app, bytes), res),
    ensures
        res is Some <==> !old(app).logo_loaded && decoded(bytes@) is Some,
        res matches Some(p) ==> (decoded(bytes@) matches Some((width, height, pixels))
            && p.size@[0] == width && p.size@[1] == height && p.pixels@ == pixels),
        final(app).logo_loaded <==> old(app).logo_loaded || decoded(bytes@) is Some,
        final(app).error_message is Some <==> old(app).error_message is Some,
        final(app).info_message@ == old(app).info_message@,
{
    law_front_end_holds_its_fields(*old(app), Seq::empty(), 0);
    law_front_end_holds_its_fields(*final(app), Seq::empty(), 0);
    if let (Some(p), Some(image)) = (res, decoded(bytes@)) {
        law_picture(p, image.0, image.1, image.2);
    }
    if old(app)@.logo_loaded {
        assert(final(app)@ == old(app)@);
    }
}

} // verus!
