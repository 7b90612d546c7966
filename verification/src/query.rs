//! The query façade's computation: joining the two persisted row sets on
//! equal timestamps into the historical view that `/all-data` serves, and
//! rendering that view as a JSON array.
use vstd::prelude::*;
use crate::decimal::{cents_text, dec_digits, push_u64_digits, render_cents};

verus! {

/// One persisted chain-height row.
#[derive(Clone, Copy, PartialEq, Eq, Structural, Debug)]
pub struct BlockRow {
    pub block_height: u64,
    pub block_timestamp: u64,
}

/// One persisted price row, in cents.
#[derive(Clone, Copy, PartialEq, Eq, Structural, Debug)]
pub struct PriceRow {
    pub price_cents: u64,
    pub price_timestamp: u64,
}

/// One entry of the joined view.
#[derive(Clone, Copy, PartialEq, Eq, Structural, Debug)]
pub struct JoinedRow {
    pub block_height: u64,
    pub price_cents: u64,
    pub timestamp: u64,
}

/// Every price row sharing one block row's timestamp, in stored order.
pub open spec fn row_matches(b: BlockRow, ps: Seq<PriceRow>) -> Seq<JoinedRow>
    decreases ps.len(),
{
    if ps.len() == 0 {
        Seq::empty()
    } else {
        row_matches(b, ps.drop_last()) + (if ps.last().price_timestamp == b.block_timestamp {
            seq![
                JoinedRow {
                    block_height: b.block_height,
                    price_cents: ps.last().price_cents,
                    timestamp: b.block_timestamp,
                },
            ]
        } else {
            Seq::empty()
        })
    }
}

/// The inner join of the two row sets on equal timestamps: for each block
/// row in stored order, every price row with the same timestamp.
pub open spec fn join_rows(bs: Seq<BlockRow>, ps: Seq<PriceRow>) -> Seq<JoinedRow>
    decreases bs.len(),
{
    if bs.len() == 0 {
        Seq::empty()
    } else {
        join_rows(bs.drop_last(), ps) + row_matches(bs.last(), ps)
    }
}

/// Joins the persisted block and price rows on matching timestamps; the
/// order is stable for a given snapshot: block rows outermost, each in
/// stored order.
pub fn list_joined(blocks: &Vec<BlockRow>, prices: &Vec<PriceRow>) -> (r: Vec<JoinedRow>)
    ensures
        r@ == join_rows(blocks@, prices@),
{
    let mut r: Vec<JoinedRow> = Vec::new();
    let mut i: usize = 0;
    proof {
        assert(blocks@.take(0) =~= Seq::<BlockRow>::empty());
    }
    while i < blocks.len()
        invariant
            0 <= i <= blocks@.len(),
            r@ == join_rows(blocks@.take(i as int), prices@),
        decreases blocks@.len() - i,
    {
        let b = blocks[i];
        let mut j: usize = 0;
        proof {
            assert(prices@.take(0) =~= Seq::<PriceRow>::empty());
            assert(r@ + row_matches(b, prices@.take(0)) =~= r@);
        }
        let ghost r_before = r@;
        while j < prices.len()
            invariant
                0 <= j <= prices@.len(),
                b == blocks@[i as int],
                0 <= i < blocks@.len(),
                r@ == r_before + row_matches(b, prices@.take(j as int)),
            decreases prices@.len() - j,
        {
            let p = prices[j];
            if p.price_timestamp == b.block_timestamp {
                r.push(
                    JoinedRow {
                        block_height: b.block_height,
                        price_cents: p.price_cents,
                        timestamp: b.block_timestamp,
                    },
                );
            }
            proof {
                assert(prices@.take(j + 1).drop_last() =~= prices@.take(j as int));
                assert(prices@.take(j + 1).last() == prices@[j as int]);
                assert(r@ =~= r_before + row_matches(b, prices@.take(j + 1)));
            }
            j += 1;
        }
        proof {
            assert(prices@.take(prices@.len() as int) =~= prices@);
            assert(blocks@.take(i + 1).drop_last() =~= blocks@.take(i as int));
            assert(blocks@.take(i + 1).last() == blocks@[i as int]);
            assert(r@ =~= join_rows(blocks@.take(i + 1), prices@));
        }
        i += 1;
    }
    proof {
        assert(blocks@.take(blocks@.len() as int) =~= blocks@);
    }
    r
}

/// One joined entry as a JSON object, the price in canonical decimal text.
pub open spec fn joined_row_json(r: JoinedRow) -> Seq<char> {
    "{\"block_height\": "@ + dec_digits(r.block_height as nat) + ", \"price\": "@ + cents_text(
        r.price_cents as nat,
    ) + ", \"timestamp\": "@ + dec_digits(r.timestamp as nat) + "}"@
}

/// The entries, separated by commas.
pub open spec fn joined_items_json(rows: Seq<JoinedRow>) -> Seq<char>
    decreases rows.len(),
{
    if rows.len() == 0 {
        Seq::empty()
    } else {
        joined_items_json(rows.drop_last()) + (if rows.len() > 1 {
            ", "@
        } else {
            Seq::<char>::empty()
        }) + joined_row_json(rows.last())
    }
}

/// The joined view as a JSON array.
pub open spec fn joined_json(rows: Seq<JoinedRow>) -> Seq<char> {
    "["@ + joined_items_json(rows) + "]"@
}

/// Renders one joined entry.
fn render_joined_row(row: &JoinedRow) -> (r: String)
    ensures
        r@ == joined_row_json(*row),
{
    let mut s = String::from_str("{\"block_height\": ");
    push_u64_digits(row.block_height, &mut s);
    s.append(", \"price\": ");
    let c = render_cents(row.price_cents);
    s.append(c.as_str());
    s.append(", \"timestamp\": ");
    push_u64_digits(row.timestamp, &mut s);
    s.append("}");
    assert(s@ =~= joined_row_json(*row));
    s
}

/// Serializes the joined view into the JSON array text that the query
/// endpoint answers with.
pub fn render_joined(rows: &Vec<JoinedRow>) -> (r: String)
    ensures
        r@ == joined_json(rows@),
{
    let mut s = String::from_str("[");
    let mut i: usize = 0;
    proof {
        assert(rows@.take(0) =~= Seq::<JoinedRow>::empty());
        assert(s@ =~= "["@ + joined_items_json(rows@.take(0)));
    }
    while i < rows.len()
        invariant
            0 <= i <= rows@.len(),
            s@ == "["@ + joined_items_json(rows@.take(i as int)),
        decreases rows@.len() - i,
    {
        if i > 0 {
            s.append(", ");
        }
        let item = render_joined_row(&rows[i]);
        s.append(item.as_str());
        proof {
            assert(rows@.take(i + 1).drop_last() =~= rows@.take(i as int));
            assert(rows@.take(i + 1).last() == rows@[i as int]);
            assert(s@ =~= "["@ + joined_items_json(rows@.take(i + 1)));
        }
        i += 1;
    }
    s.append("]");
    proof {
        assert(rows@.take(rows@.len() as int) =~= rows@);
        assert(s@ =~= joined_json(rows@));
    }
    s
}

} // verus!
