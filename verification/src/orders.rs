//! Order-list shaping for the manifest endpoint: which content types are
//! readable, the magic-keyword rule, and the `item: quantity` line format
//! of the response body.

use vstd::prelude::*;

use crate::text::{push_char, str_eq};

verus! {

/// The three manifest encodings the endpoint accepts.
#[derive(Clone, Copy, Debug, PartialEq, Eq, Structural)]
pub enum Format {
    Json,
    Yaml,
    Toml,
}

pub open spec fn spec_format(ct: Seq<char>) -> Option<Format> {
    if ct == "application/toml"@ {
        Some(Format::Toml)
    } else if ct == "application/json"@ {
        Some(Format::Json)
    } else if ct == "application/yaml"@ {
        Some(Format::Yaml)
    } else {
        None
    }
}

/// Which manifest format a content type announces; anything else is an
/// unsupported media type.
pub fn get_format(content_type: &str) -> (r: Option<Format>)
    ensures
        r == spec_format(content_type@),
{
    if str_eq(content_type, "application/toml") {
        Some(Format::Toml)
    } else if str_eq(content_type, "application/json") {
        Some(Format::Json)
    } else if str_eq(content_type, "application/yaml") {
        Some(Format::Yaml)
    } else {
        None
    }
}

/// One order read from the manifest metadata.
pub struct Order {
    pub item: String,
    pub quantity: u64,
}

pub ghost struct OrderModel {
    pub item: Seq<char>,
    pub quantity: u64,
}

impl View for Order {
    type V = OrderModel;

    open spec fn view(&self) -> OrderModel {
        OrderModel { item: self.item@, quantity: self.quantity }
    }
}

impl DeepView for Order {
    type V = OrderModel;

    open spec fn deep_view(&self) -> OrderModel {
        self.view()
    }
}

pub open spec fn dec_digit(d: int) -> char {
    (d + 48) as char
}

pub open spec fn dec_pos(n: nat) -> Seq<char>
    decreases n,
{
    if n == 0 {
        Seq::empty()
    } else {
        dec_pos(n / 10).push(dec_digit((n % 10) as int))
    }
}

/// Decimal digits of a number, most significant first.
pub open spec fn dec(n: nat) -> Seq<char> {
    if n == 0 {
        seq!['0']
    } else {
        dec_pos(n)
    }
}

fn dec_pos_exec(n: u64) -> (r: String)
    ensures
        r@ == dec_pos(n as nat),
    decreases n,
{
    if n == 0 {
        String::new()
    } else {
        let mut s = dec_pos_exec(n / 10);
        let d = n % 10;
        push_char(&mut s, ((d + 48) as u8) as char);
        s
    }
}

/// A number written in decimal.
pub fn u64_to_decimal(n: u64) -> (r: String)
    ensures
        r@ == dec(n as nat),
{
    if n == 0 {
        let mut s = String::new();
        push_char(&mut s, '0');
        proof {
            assert(s@ =~= dec(0));
        }
        s
    } else {
        dec_pos_exec(n)
    }
}

/// One response line: the item, a colon and a space, the quantity.
pub open spec fn line_of(o: OrderModel) -> Seq<char> {
    o.item + ": "@ + dec(o.quantity as nat)
}

/// The response body: one line per order, joined by line breaks.
pub open spec fn spec_render_orders(os: Seq<OrderModel>) -> Seq<char>
    decreases os.len(),
{
    if os.len() == 0 {
        Seq::empty()
    } else if os.len() == 1 {
        line_of(os[0])
    } else {
        spec_render_orders(os.drop_last()) + "\n"@ + line_of(os.last())
    }
}

pub open spec fn contains_keyword(ks: Seq<Seq<char>>) -> bool {
    exists|i: int| 0 <= i < ks.len() && ks[i] == "Christmas 2024"@
}

/// Whether the magic keyword is among the manifest's local keywords.
pub fn has_magic_keyword(keywords: &Vec<String>) -> (r: bool)
    ensures
        r == contains_keyword(keywords.deep_view()),
{
    let n = keywords.len();
    let mut i: usize = 0;
    while i < n
        invariant
            0 <= i <= n,
            n == keywords@.len(),
            forall|j: int| 0 <= j < i ==> keywords.deep_view()[j] != "Christmas 2024"@,
        decreases n - i,
    {
        if str_eq(keywords[i].as_str(), "Christmas 2024") {
            proof {
                assert(keywords.deep_view()[i as int] == "Christmas 2024"@);
            }
            return true;
        }
        i = i + 1;
    }
    false
}

/// Writes the order lines.
pub fn render_orders(orders: &Vec<Order>) -> (r: String)
    ensures
        r@ == spec_render_orders(orders.deep_view()),
{
    let ghost os = orders.deep_view();
    let n = orders.len();
    let mut s = String::new();
    let mut i: usize = 0;
    proof {
        assert(s@ =~= spec_render_orders(os.take(0)));
    }
    while i < n
        invariant
            0 <= i <= n,
            n == os.len(),
            os == orders.deep_view(),
            s@ == spec_render_orders(os.take(i as int)),
        decreases n - i,
    {
        if i > 0 {
            s.append("\n");
        }
        s.append(orders[i].item.as_str());
        s.append(": ");
        let q = u64_to_decimal(orders[i].quantity);
        s.append(q.as_str());
        proof {
            assert(os.take(i as int + 1).last() == os[i as int]);
            assert(os[i as int] == orders@[i as int]@);
            if i == 0 {
                assert(s@ =~= line_of(os[0]));
            } else {
                assert(os.take(i as int + 1).drop_last() =~= os.take(i as int));
                assert(s@ =~= spec_render_orders(os.take(i as int)) + "\n"@ + line_of(
                    os[i as int],
                ));
            }
        }
        i = i + 1;
    }
    proof {
        assert(os.take(n as int) =~= os);
    }
    s
}

/// The manifest endpoint's decision: orders are rendered only for a
/// manifest whose local keywords carry the magic keyword; otherwise the
/// magic-keyword refusal stands, whatever the orders.
pub fn orders_reply(keywords_local: bool, keywords: &Vec<String>, orders: &Vec<Order>) -> (r:
    Option<String>)
    ensures
        (keywords_local && contains_keyword(keywords.deep_view())) <==> r is Some,
        r matches Some(s) ==> s@ == spec_render_orders(orders.deep_view()),
{
    if keywords_local && has_magic_keyword(keywords) {
        Some(render_orders(orders))
    } else {
        None
    }
}

} // verus!
