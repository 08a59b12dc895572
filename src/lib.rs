//! Composes a terminal welcome banner from an inline image and a styled
//! flashcard, laid out side by side as padded text blocks.
use vstd::prelude::*;

pub mod block;
pub mod card;
pub mod error;
pub mod image;
pub mod style;
pub mod text;

use crate::block::{composed, join_horizontal, max_height, max_len, Block};
use crate::error::Error;
use crate::text::lines_of;

verus! {

/// The banner text: the image block and the rendered card side by side, the
/// card taking the width of its longest line and the height of its line
/// count; the card alone where there is no image.
pub fn banner(image: Option<Block>, card: &str) -> (r: Result<String, Error>)
    requires
        card@.len() < u32::MAX,
    ensures
        image is None ==> (r matches Ok(s) && s@ == card@),
        image matches Some(b) ==> (r is Err <==> ((b.height > 0 || lines_of(card@).len() > 0)
            && !b.well_sized())),
        image matches Some(b) ==> exists|c: Block|
            #![trigger c.content@]
            c.content@ == card@ && c.height == lines_of(card@).len() && c.width == max_len(
                lines_of(card@),
            ) && match r {
                Ok(s) => s@ == composed(seq![b, c]),
                Err(e) => e == Error::InvalidBlockDimensions && !b.well_sized(),
            },
{
    match image {
        None => Ok(String::from_str(card)),
        Some(b) => {
            let c = Block::from_text(card);
            let ghost gb = b;
            let ghost gc = c;
            let mut blocks: Vec<Block> = Vec::new();
            blocks.push(b);
            blocks.push(c);
            assert(blocks@ =~= seq![gb, gc]);
            let r = join_horizontal(&blocks);
            proof {
                let bs = seq![gb, gc];
                assert(bs.drop_last() =~= seq![gb]);
                assert(seq![gb].drop_last() =~= Seq::<Block>::empty());
                assert(bs.last() == gc);
                assert(seq![gb].last() == gb);
                assert(max_height(Seq::<Block>::empty()) == 0);
                assert(max_height(seq![gb]) == gb.height);
                assert(max_height(bs) > 0 <==> (gb.height > 0 || gc.height > 0));
                if r is Err {
                    let k = choose|k: int| 0 <= k < blocks@.len() && !(#[trigger] blocks@[k]).well_sized();
                    assert(k == 0);
                } else if (gb.height > 0 || gc.height > 0) && !gb.well_sized() {
                    assert(!blocks@[0].well_sized());
                }
            }
            assert(gc.content@ == card@);
            r
        },
    }
}

} // verus!
