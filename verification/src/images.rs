//! The image store: images are kept in base64 and known by their position.

use crate::market::Marketplace;
use crate::text::texts;
use base64::Engine;
use vstd::prelude::*;

verus! {

/// The standard base64 form, with padding, of the UTF-8 bytes of `text`, as
/// the `base64` crate computes it.
pub uninterp spec fn base64_standard(text: Seq<char>) -> Seq<char>;

/// Calls `base64::Engine::encode` on `base64::engine::general_purpose::STANDARD`.
/// The result depends on the bytes of the text alone; the contract gives it
/// the name `base64_standard`. The call panics only where the length of the
/// result leaves `usize`, which no text in memory reaches.
#[verifier::external_body]
fn encode_base64(text: &str) -> (encoded: String)
    ensures
        encoded@ == base64_standard(text@),
{
    base64::engine::general_purpose::STANDARD.encode(text)
}

/// The images in the form in which they are stored: each in base64.
pub open spec fn encoded(images: Seq<Seq<char>>) -> Seq<Seq<char>> {
    images.map_values(|image: Seq<char>| base64_standard(image))
}

/// The positions in the image store that `count` images stored behind
/// `stored` images get.
pub open spec fn image_positions(stored: nat, count: nat) -> Seq<u64> {
    Seq::new(count, |i: int| (stored + i) as u64)
}

/// Puts each of `images` into base64.
pub fn encode_images(images: &Vec<String>) -> (stored: Vec<String>)
    ensures
        texts(stored@) == encoded(texts(images@)),
{
    let mut stored: Vec<String> = Vec::new();
    let mut i: usize = 0;
    while i < images.len()
        invariant
            i <= images.len(),
            stored.len() == i,
            forall|j: int| 0 <= j < i ==> (#[trigger] stored[j])@ == base64_standard(images[j]@),
        decreases images.len() - i,
    {
        stored.push(encode_base64(images[i].as_str()));
        i += 1;
    }
    stored
}

/// Puts `images` into the image store and hands back the positions they
/// got.
pub(crate) fn store_images(store: &mut Vec<String>, images: Vec<String>) -> (positions: Vec<u64>)
    ensures
        texts(final(store)@) == texts(old(store)@) + texts(images@),
        positions@ == image_positions(old(store)@.len(), images@.len()),
{
    let mut positions: Vec<u64> = Vec::new();
    let ghost start = texts(store@);
    let ghost added = texts(images@);
    let mut i: usize = 0;
    while i < images.len()
        invariant
            i <= images.len(),
            added == texts(images@),
            start.len() == old(store)@.len(),
            texts(store@) == start + added.take(i as int),
            positions@ == image_positions(start.len(), i as nat),
        decreases images.len() - i,
    {
        let image = images[i].clone();
        let ghost before = texts(store@);
        store.push(image);
        assert(texts(store@) =~= before.push(image@));
        let position = (store.len() - 1) as u64;
        positions.push(position);
        i += 1;
    }
    positions
}

impl Marketplace {
    /// The image stored at position `image_id`, if there is one.
    pub fn get_image_by_id(&self, image_id: u64) -> (image: Option<String>)
        ensures
            match image {
                Some(image) => image_id < self@.images.len() && image@
                    == self@.images[image_id as int],
                None => image_id >= self@.images.len(),
            },
    {
        if image_id < self.images.len() as u64 {
            Some(self.images[image_id as usize].clone())
        } else {
            None
        }
    }
}

} // verus!
