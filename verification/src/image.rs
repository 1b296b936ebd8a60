use vstd::prelude::*;

verus! {

/// Opaque alpha of every pixel that has no alpha channel of its own.
pub const OPAQUE: u8 = 255u8;

/// RGBA bytes of a grayscale image: each level is repeated in the red, green
/// and blue channels, with an opaque alpha.
pub fn gray_pixels(levels: &[u8]) -> (bytes: Vec<u8>)
    requires
        4 * levels@.len() <= usize::MAX,
    ensures
        bytes@.len() == 4 * levels@.len(),
        forall|i: int|
            0 <= i < levels@.len() ==> {
                &&& #[trigger] bytes@[4 * i] == levels@[i]
                &&& bytes@[4 * i + 1] == levels@[i]
                &&& bytes@[4 * i + 2] == levels@[i]
                &&& bytes@[4 * i + 3] == OPAQUE
            },
{
    let mut bytes: Vec<u8> = Vec::new();
    let mut index: usize = 0;
    while index < levels.len()
        invariant
            index <= levels@.len(),
            4 * levels@.len() <= usize::MAX,
            bytes@.len() == 4 * index,
            forall|i: int|
                0 <= i < index ==> {
                    &&& #[trigger] bytes@[4 * i] == levels@[i]
                    &&& bytes@[4 * i + 1] == levels@[i]
                    &&& bytes@[4 * i + 2] == levels@[i]
                    &&& bytes@[4 * i + 3] == OPAQUE
                },
        decreases levels@.len() - index,
    {
        let v = levels[index];
        let ghost before = bytes@;
        bytes.push(v);
        bytes.push(v);
        bytes.push(v);
        bytes.push(OPAQUE);
        proof {
            assert forall|i: int| 0 <= i <= index implies {
                &&& #[trigger] bytes@[4 * i] == levels@[i]
                &&& bytes@[4 * i + 1] == levels@[i]
                &&& bytes@[4 * i + 2] == levels@[i]
                &&& bytes@[4 * i + 3] == OPAQUE
            } by {
                if i < index {
                    assert(bytes@[4 * i] == before[4 * i]);
                    assert(bytes@[4 * i + 1] == before[4 * i + 1]);
                    assert(bytes@[4 * i + 2] == before[4 * i + 2]);
                    assert(bytes@[4 * i + 3] == before[4 * i + 3]);
                }
            }
        }
        index = index + 1;
    }
    bytes
}

/// RGBA bytes of an image whose pixels are given as colors, in order.
pub fn color_pixels(colors: &[[u8; 4]]) -> (bytes: Vec<u8>)
    requires
        4 * colors@.len() <= usize::MAX,
    ensures
        bytes@.len() == 4 * colors@.len(),
        forall|i: int, c: int|
            0 <= i < colors@.len() && 0 <= c < 4 ==> #[trigger] bytes@[4 * i + c]
                == #[trigger] colors@[i]@[c],
{
    let mut bytes: Vec<u8> = Vec::new();
    let mut index: usize = 0;
    while index < colors.len()
        invariant
            index <= colors@.len(),
            4 * colors@.len() <= usize::MAX,
            bytes@.len() == 4 * index,
            forall|i: int, c: int|
                0 <= i < index && 0 <= c < 4 ==> #[trigger] bytes@[4 * i + c]
                    == #[trigger] colors@[i]@[c],
        decreases colors@.len() - index,
    {
        let color = colors[index];
        let ghost before = bytes@;
        bytes.push(color[0]);
        bytes.push(color[1]);
        bytes.push(color[2]);
        bytes.push(color[3]);
        proof {
            assert forall|i: int, c: int|
                0 <= i <= index && 0 <= c < 4 implies #[trigger] bytes@[4 * i + c]
                    == #[trigger] colors@[i]@[c] by {
                if i < index {
                    assert(bytes@[4 * i + c] == before[4 * i + c]);
                }
            }
        }
        index = index + 1;
    }
    bytes
}

/// RGBA bytes packing up to four channel layers, one cell per pixel; without
/// an alpha layer every pixel is opaque. The image has as many pixels as the
/// red layer has cells.
pub fn pack_channels(r: &[u8], g: &[u8], b: &[u8], a: Option<&[u8]>) -> (bytes: Vec<u8>)
    requires
        4 * r@.len() <= usize::MAX,
        g@.len() >= r@.len(),
        b@.len() >= r@.len(),
        a matches Some(alpha) ==> alpha@.len() >= r@.len(),
    ensures
        bytes@.len() == 4 * r@.len(),
        forall|i: int|
            0 <= i < r@.len() ==> {
                &&& #[trigger] bytes@[4 * i] == r@[i]
                &&& bytes@[4 * i + 1] == g@[i]
                &&& bytes@[4 * i + 2] == b@[i]
                &&& bytes@[4 * i + 3] == match a {
                    Some(alpha) => alpha@[i],
                    None => OPAQUE,
                }
            },
{
    let mut bytes: Vec<u8> = Vec::new();
    let mut index: usize = 0;
    while index < r.len()
        invariant
            index <= r@.len(),
            4 * r@.len() <= usize::MAX,
            g@.len() >= r@.len(),
            b@.len() >= r@.len(),
            a matches Some(alpha) ==> alpha@.len() >= r@.len(),
            bytes@.len() == 4 * index,
            forall|i: int|
                0 <= i < index ==> {
                    &&& #[trigger] bytes@[4 * i] == r@[i]
                    &&& bytes@[4 * i + 1] == g@[i]
                    &&& bytes@[4 * i + 2] == b@[i]
                    &&& bytes@[4 * i + 3] == match a {
                        Some(alpha) => alpha@[i],
                        None => OPAQUE,
                    }
                },
        decreases r@.len() - index,
    {
        let alpha = match a {
            Some(layer) => layer[index],
            None => OPAQUE,
        };
        let ghost before = bytes@;
        bytes.push(r[index]);
        bytes.push(g[index]);
        bytes.push(b[index]);
        bytes.push(alpha);
        proof {
            assert forall|i: int| 0 <= i <= index implies {
                &&& #[trigger] bytes@[4 * i] == r@[i]
                &&& bytes@[4 * i + 1] == g@[i]
                &&& bytes@[4 * i + 2] == b@[i]
                &&& bytes@[4 * i + 3] == match a {
                    Some(alpha) => alpha@[i],
                    None => OPAQUE,
                }
            } by {
                if i < index {
                    assert(bytes@[4 * i] == before[4 * i]);
                    assert(bytes@[4 * i + 1] == before[4 * i + 1]);
                    assert(bytes@[4 * i + 2] == before[4 * i + 2]);
                    assert(bytes@[4 * i + 3] == before[4 * i + 3]);
                }
            }
        }
        index = index + 1;
    }
    bytes
}

} // verus!
