//! Sales-statistics metric keys and the request payload built from them.

use vstd::prelude::*;

use crate::text::spec_join;

verus! {

/// Diffrent Mojang Products that can be added to the Stats Query
#[derive(Debug, Clone, Copy, PartialEq, Eq, Structural)]
pub enum MetricKeys {
    /// Minecraft Sales
    ItemSoldMinecraft,
    /// Minecrft Cards Redeemed
    PrepaidCardRedeemedMinecraft,
    /// Cobalt Sales
    ItemSoldCobalt,
    /// Cobalt Cards Redeemed
    PrepaidCardRedeemedCobalt,
    /// Scrolls Sales
    ItemSoldScrolls,
    /// Minecraft Dungeons Sales
    ItemSoldDungeons,
}

/// The wire name of a metric key.
pub open spec fn spec_metric_name(k: MetricKeys) -> Seq<char> {
    match k {
        MetricKeys::ItemSoldMinecraft => "item_sold_minecraft"@,
        MetricKeys::PrepaidCardRedeemedMinecraft => "prepaid_card_redeemed_minecraft"@,
        MetricKeys::ItemSoldCobalt => "item_sold_cobalt"@,
        MetricKeys::PrepaidCardRedeemedCobalt => "prepaid_card_redeemed_cobalt"@,
        MetricKeys::ItemSoldScrolls => "item_sold_scrolls"@,
        MetricKeys::ItemSoldDungeons => "item_sold_dungeons"@,
    }
}

/// A metric key in its JSON form: the wire name in double quotes.
pub open spec fn spec_metric_json(k: MetricKeys) -> Seq<char> {
    seq!['"'] + spec_metric_name(k) + seq!['"']
}

/// The request body that asks for the given metrics, in the order given.
pub open spec fn spec_keys_json(keys: Seq<MetricKeys>) -> Seq<char> {
    "{\"metricKeys\":["@ + spec_join(keys.map_values(|k: MetricKeys| spec_metric_json(k)), ',')
        + "]}"@
}

impl MetricKeys {
    /// The wire name of this metric key.
    pub fn name(&self) -> (r: String)
        ensures
            r@ == spec_metric_name(*self),
    {
        match self {
            MetricKeys::ItemSoldMinecraft => String::from_str("item_sold_minecraft"),
            MetricKeys::PrepaidCardRedeemedMinecraft => String::from_str(
                "prepaid_card_redeemed_minecraft",
            ),
            MetricKeys::ItemSoldCobalt => String::from_str("item_sold_cobalt"),
            MetricKeys::PrepaidCardRedeemedCobalt => String::from_str(
                "prepaid_card_redeemed_cobalt",
            ),
            MetricKeys::ItemSoldScrolls => String::from_str("item_sold_scrolls"),
            MetricKeys::ItemSoldDungeons => String::from_str("item_sold_dungeons"),
        }
    }

    /// The key as a JSON string literal.
    pub fn jsonify(&self) -> (r: String)
        ensures
            r@ == spec_metric_json(*self),
    {
        let mut r = String::from_str("\"");
        let name = self.name();
        r.append(name.as_str());
        r.append("\"");
        proof {
            reveal_strlit("\"");
            assert(r@ =~= spec_metric_json(*self));
        }
        r
    }
}

/// Builds the request body that asks for the given metrics.
pub fn get_keys_json(keys: Vec<MetricKeys>) -> (r: String)
    ensures
        r@ == spec_keys_json(keys@),
{
    let ghost m = keys@.map_values(|k: MetricKeys| spec_metric_json(k));
    let mut r = String::from_str("{\"metricKeys\":[");
    let mut i: usize = 0;
    proof {
        assert(m.take(0) =~= Seq::<Seq<char>>::empty());
        assert(r@ =~= "{\"metricKeys\":["@ + spec_join(m.take(0), ','));
    }
    while i < keys.len()
        invariant
            i <= keys@.len(),
            m == keys@.map_values(|k: MetricKeys| spec_metric_json(k)),
            r@ == "{\"metricKeys\":["@ + spec_join(m.take(i as int), ','),
        decreases keys@.len() - i,
    {
        if i > 0 {
            r.append(",");
        }
        let json = keys[i].jsonify();
        r.append(json.as_str());
        proof {
            reveal_strlit(",");
            assert(m.take(i + 1).drop_last() =~= m.take(i as int));
            assert(m.take(i + 1).last() == m[i as int]);
            assert(r@ =~= "{\"metricKeys\":["@ + spec_join(m.take(i + 1), ','));
        }
        i += 1;
    }
    r.append("]}");
    proof {
        assert(m.take(keys@.len() as int) =~= m);
        assert(r@ =~= spec_keys_json(keys@));
    }
    r
}

} // verus!
