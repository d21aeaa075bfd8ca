//! From cluster labels to a classified picture: which class a label stands
//! for, which colour each class is painted, how many pixels are tarp, and
//! where clustering found more structure than the two expected clusters.

use vstd::prelude::*;
use vstd::seq_lib::to_multiset_build;
use crate::color::Rgba8;
use crate::grid::{pixels_of_bytes, PixelGrid};
use crate::raster::{raster_x, raster_y, lemma_coords_in_bounds};

verus! {

/// The class of a pixel.
#[derive(Clone, Copy, Debug, PartialEq, Eq, Structural)]
pub enum Classification {
    /// Member of cluster 0.
    Background,
    /// Member of cluster 1.
    Tarp,
    /// Member of no cluster.
    Noise,
    /// Member of the given cluster, which is neither 0 nor 1.
    Unexpected(usize),
}

/// The class that a cluster label stands for. Cluster 0 is background and
/// cluster 1 is tarp, whatever clustering found; a pixel without a cluster
/// is noise.
pub open spec fn classification_of(label: Option<usize>) -> Classification {
    match label {
        None => Classification::Noise,
        Some(id) => if id == 0 {
            Classification::Background
        } else if id == 1 {
            Classification::Tarp
        } else {
            Classification::Unexpected(id)
        },
    }
}

/// The colour of a pixel in the classified picture: background keeps its
/// colour, tarp is red, noise is blue, anything else is white.
pub open spec fn painted(original: Rgba8, class: Classification) -> Rgba8 {
    match class {
        Classification::Background => original,
        Classification::Tarp => Rgba8::spec_red(),
        Classification::Noise => Rgba8::spec_blue(),
        Classification::Unexpected(_) => Rgba8::spec_white(),
    }
}

/// The pixels of the classified picture, in raster order.
pub open spec fn classified_pixels(pixels: Seq<Rgba8>, labels: Seq<Option<usize>>) -> Seq<Rgba8> {
    Seq::new(pixels.len(), |i: int| painted(pixels[i], classification_of(labels[i])))
}

/// How many labels name the tarp cluster.
pub open spec fn tarp_count(labels: Seq<Option<usize>>) -> nat {
    labels.to_multiset().count(Some(1usize))
}

/// How many pixels are exactly opaque red.
pub open spec fn red_count(pixels: Seq<Rgba8>) -> nat {
    pixels.to_multiset().count(Rgba8::spec_red())
}

/// A pixel whose label names a cluster other than background and tarp.
#[derive(Clone, Copy, Debug, PartialEq, Eq, Structural)]
pub struct UnexpectedPixel {
    pub x: u32,
    pub y: u32,
    pub label: usize,
}

/// Whether a label names a cluster other than background and tarp.
pub open spec fn is_unexpected(label: Option<usize>) -> bool {
    label matches Some(id) && id >= 2
}

/// The positions below `n` whose label is unexpected, in increasing order.
pub open spec fn unexpected_indices(labels: Seq<Option<usize>>, n: nat) -> Seq<int> {
    Seq::new(n, |i: int| i).filter(|i: int| is_unexpected(labels[i]))
}

/// The report for position `index` of a grid `width` wide.
pub open spec fn unexpected_pixel(labels: Seq<Option<usize>>, width: int, index: int)
    -> UnexpectedPixel {
    UnexpectedPixel {
        x: raster_x(index, width) as u32,
        y: raster_y(index, width) as u32,
        label: labels[index]->0,
    }
}

/// The reports for the first `n` positions, in raster order.
pub open spec fn unexpected_among(labels: Seq<Option<usize>>, width: int, n: nat)
    -> Seq<UnexpectedPixel> {
    unexpected_indices(labels, n).map_values(|i: int| unexpected_pixel(labels, width, i))
}

/// One report for each pixel with an unexpected label, in raster order.
pub open spec fn unexpected_pixels(labels: Seq<Option<usize>>, width: int)
    -> Seq<UnexpectedPixel> {
    unexpected_among(labels, width, labels.len())
}

/// No pixel of the background cluster is itself exactly opaque red.
pub open spec fn background_is_not_red(pixels: Seq<Rgba8>, labels: Seq<Option<usize>>) -> bool {
    forall|i: int|
        0 <= i < pixels.len() && labels[i] == Some(0usize) ==> #[trigger] pixels[i]
            != Rgba8::spec_red()
}

/// Every pixel of the classified picture is the original pixel (label 0),
/// red (label 1), blue (no label) or white (any other label), and which of
/// the four it is depends on the label alone.
pub proof fn lemma_four_outcomes(pixels: Seq<Rgba8>, labels: Seq<Option<usize>>, i: int)
    requires
        0 <= i < pixels.len(),
    ensures
        labels[i] == Some(0usize) ==> classified_pixels(pixels, labels)[i] == pixels[i],
        labels[i] == Some(1usize) ==> classified_pixels(pixels, labels)[i] == Rgba8::spec_red(),
        labels[i] is None ==> classified_pixels(pixels, labels)[i] == Rgba8::spec_blue(),
        is_unexpected(labels[i]) ==> classified_pixels(pixels, labels)[i] == Rgba8::spec_white(),
        labels[i] == Some(0usize) || labels[i] == Some(1usize) || labels[i] is None
            || is_unexpected(labels[i]),
{
}

/// Unless a background pixel is itself exactly opaque red, the classified
/// picture has as many red pixels as there are tarp labels.
pub proof fn lemma_red_pixels_are_tarp(pixels: Seq<Rgba8>, labels: Seq<Option<usize>>)
    requires
        pixels.len() == labels.len(),
        background_is_not_red(pixels, labels),
    ensures
        red_count(classified_pixels(pixels, labels)) == tarp_count(labels),
    decreases pixels.len(),
{
    let out = classified_pixels(pixels, labels);
    if pixels.len() == 0 {
        out.to_multiset_ensures();
        labels.to_multiset_ensures();
    } else {
        let last = pixels.len() - 1;
        let fewer_pixels = pixels.drop_last();
        let fewer_labels = labels.drop_last();
        assert forall|i: int|
            0 <= i < fewer_pixels.len() && fewer_labels[i] == Some(
                0usize,
            ) implies #[trigger] fewer_pixels[i] != Rgba8::spec_red() by {
            assert(pixels[i] == fewer_pixels[i]);
        }
        lemma_red_pixels_are_tarp(fewer_pixels, fewer_labels);
        let fewer_out = classified_pixels(fewer_pixels, fewer_labels);
        assert(out =~= fewer_out.push(out[last]));
        assert(labels =~= fewer_labels.push(labels[last]));
        to_multiset_build(fewer_out, out[last]);
        to_multiset_build(fewer_labels, labels[last]);
        assert(labels[last] == Some(0usize) ==> pixels[last] != Rgba8::spec_red());
        assert(out[last] == Rgba8::spec_red() <==> labels[last] == Some(1usize));
    }
}

/// Adding one position to the positions searched adds it to the unexpected
/// ones exactly when its label is unexpected.
pub proof fn lemma_unexpected_step(labels: Seq<Option<usize>>, width: int, n: nat)
    ensures
        unexpected_among(labels, width, n + 1) == if is_unexpected(labels[n as int]) {
            unexpected_among(labels, width, n).push(unexpected_pixel(labels, width, n as int))
        } else {
            unexpected_among(labels, width, n)
        },
        unexpected_among(labels, width, 0) == Seq::<UnexpectedPixel>::empty(),
{
    reveal(Seq::filter);
    let wider = Seq::new(n + 1, |i: int| i);
    let narrower = Seq::new(n, |i: int| i);
    assert(wider.drop_last() =~= narrower);
    assert(wider.last() == n);
    let report = |i: int| unexpected_pixel(labels, width, i);
    let found = unexpected_indices(labels, n);
    assert(found.push(n as int).map_values(report) =~= found.map_values(report).push(
        report(n as int),
    ));
    assert(unexpected_among(labels, width, 0) =~= Seq::<UnexpectedPixel>::empty());
}

/// Classifies one cluster label.
pub fn classify_label(label: Option<usize>) -> (class: Classification)
    ensures
        class == classification_of(label),
{
    match label {
        None => Classification::Noise,
        Some(id) => {
            if id == 0 {
                Classification::Background
            } else if id == 1 {
                Classification::Tarp
            } else {
                Classification::Unexpected(id)
            }
        },
    }
}

/// The colour that a pixel of the given class gets in the classified
/// picture.
pub fn paint(original: Rgba8, class: Classification) -> (color: Rgba8)
    ensures
        color == painted(original, class),
{
    match class {
        Classification::Background => original,
        Classification::Tarp => Rgba8::red(),
        Classification::Noise => Rgba8::blue(),
        Classification::Unexpected(_) => Rgba8::white(),
    }
}

/// What classification yields: the classified picture, the number of tarp
/// pixels, and a report for each pixel with an unexpected label.
pub struct Segmentation {
    pub image: PixelGrid,
    pub tarp_pixel_count: usize,
    pub unexpected: Vec<UnexpectedPixel>,
}

/// Classifies every pixel of `img` by the label at its raster position and
/// paints the classified picture. There must be exactly one label per
/// pixel; otherwise nothing is classified.
pub fn classify_pixels(img: &PixelGrid, labels: &Vec<Option<usize>>) -> (out: Option<Segmentation>)
    ensures
        out is Some <==> labels@.len() == img@.pixels.len(),
        out matches Some(seg) ==> {
            &&& seg.image@.width == img@.width
            &&& seg.image@.height == img@.height
            &&& seg.image@.wf()
            &&& seg.image@.pixels == classified_pixels(img@.pixels, labels@)
            &&& seg.tarp_pixel_count == tarp_count(labels@)
            &&& seg.unexpected@ == unexpected_pixels(labels@, img@.width as int)
            &&& background_is_not_red(img@.pixels, labels@) ==> seg.tarp_pixel_count
                == red_count(seg.image@.pixels)
        },
{
    if labels.len() != img.pixel_count() {
        return None;
    }
    let width: u32 = img.width();
    let height: u32 = img.height();
    let total: usize = img.pixel_count();
    let mut data: Vec<u8> = Vec::new();
    let mut count: usize = 0;
    let mut unexpected: Vec<UnexpectedPixel> = Vec::new();
    proof {
        labels@.take(0).to_multiset_ensures();
        lemma_unexpected_step(labels@, width as int, 0);
    }
    let mut i: usize = 0;
    while i < total
        invariant
            i <= total,
            total == img@.pixels.len(),
            total == labels@.len(),
            width == img@.width,
            height == img@.height,
            img@.wf(),
            data@.len() == 4 * i,
            forall|k: int|
                0 <= k < i ==> #[trigger] pixels_of_bytes(data@)[k] == painted(
                    img@.pixels[k],
                    classification_of(labels@[k]),
                ),
            count <= i,
            count == tarp_count(labels@.take(i as int)),
            unexpected@ == unexpected_among(labels@, width as int, i as nat),
        decreases total - i,
    {
        let original: Rgba8 = img.pixel(i);
        let class: Classification = classify_label(labels[i]);
        let color: Rgba8 = paint(original, class);
        let ghost before = data@;
        data.push(color.r);
        data.push(color.g);
        data.push(color.b);
        data.push(color.a);
        proof {
            assert forall|k: int| 0 <= k < i + 1 implies #[trigger] pixels_of_bytes(data@)[k]
                == painted(img@.pixels[k], classification_of(labels@[k])) by {
                if k < i {
                    assert(pixels_of_bytes(before)[k] == pixels_of_bytes(data@)[k]);
                }
            }
            assert(labels@.take(i + 1) =~= labels@.take(i as int).push(labels@[i as int]));
            to_multiset_build(labels@.take(i as int), labels@[i as int]);
            lemma_unexpected_step(labels@, width as int, i as nat);
            lemma_coords_in_bounds(i as int, width as int, height as int);
        }
        match class {
            Classification::Tarp => {
                count = count + 1;
            },
            Classification::Unexpected(label) => {
                let x: usize = i % (width as usize);
                let y: usize = i / (width as usize);
                unexpected.push(UnexpectedPixel { x: x as u32, y: y as u32, label });
            },
            _ => {},
        }
        i = i + 1;
    }
    proof {
        assert(labels@.take(total as int) =~= labels@);
        assert(pixels_of_bytes(data@) =~= classified_pixels(img@.pixels, labels@));
        if background_is_not_red(img@.pixels, labels@) {
            lemma_red_pixels_are_tarp(img@.pixels, labels@);
        }
    }
    let image: PixelGrid = PixelGrid::from_raw(width, height, data).unwrap();
    Some(Segmentation { image, tarp_pixel_count: count, unexpected })
}

} // verus!
