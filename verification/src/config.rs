//! The topic map: logical message names to the wire topics the broker
//! client publishes on.

use vstd::prelude::*;

use std::collections::HashMap;

verus! {

/// The topic map used for outgoing telemetry: the logical name `out` is
/// routed to the wire topic `sensor-data`.
pub fn get_topics() -> (r: HashMap<String, String>)
    ensures
        vstd::std_specs::hash::obeys_key_model::<String>()
            && vstd::std_specs::hash::builds_valid_hashers::<
            std::collections::hash_map::RandomState,
        >() ==> (exists|k: String, v: String|
            #![auto]
            k@ == "out"@ && v@ == "sensor-data"@ && r@ == Map::<String, String>::empty().insert(
                k,
                v,
            )),
{
    let mut topics: HashMap<String, String> = HashMap::new();
    let k = "out".to_string();
    let v = "sensor-data".to_string();
    proof {
        vstd::string::to_string_from_display_ensures_for_str("out", k);
        vstd::string::to_string_from_display_ensures_for_str("sensor-data", v);
    }
    let ghost gk = k;
    let ghost gv = v;
    topics.insert(k, v);
    proof {
        if vstd::std_specs::hash::obeys_key_model::<String>()
            && vstd::std_specs::hash::builds_valid_hashers::<
            std::collections::hash_map::RandomState,
        >() {
            assert(gk@ == "out"@ && gv@ == "sensor-data"@ && topics@ == Map::<
                String,
                String,
            >::empty().insert(gk, gv));
        }
    }
    topics
}

} // verus!
