//! Which PKCS#11 tokens are offered for signing, how they are listed, and
//! how a chosen token is found again after the module is reloaded.
use vstd::prelude::*;
use crate::model::HardwareToken;
use crate::order::stable_order;
use crate::stores::order_by_label;
use crate::text::{chars_equal, chars_of, trim, trimmed};

verus! {

/// What a module reports about a slot with a token present.
#[derive(Clone, Debug, PartialEq, Eq)]
pub struct SlotToken {
    /// The token has been initialized. Some modules report an empty
    /// provisioning slot as token-present; it cannot open a user session.
    pub initialized: bool,
    pub label: String,
    pub serial: String,
    pub slot_id: u64,
}

/// The usable tokens, in slot order: initialized ones, with label and
/// serial trimmed of white space.
pub open spec fn usable_tokens(slots: Seq<SlotToken>) -> Seq<(Seq<char>, Seq<char>, u64)>
    decreases slots.len(),
{
    if slots.len() == 0 {
        Seq::empty()
    } else if slots.last().initialized {
        usable_tokens(slots.drop_last()).push(
            (trimmed(slots.last().label@), trimmed(slots.last().serial@), slots.last().slot_id),
        )
    } else {
        usable_tokens(slots.drop_last())
    }
}

/// The tokens offered for signing: the usable tokens of `module`, ordered
/// by label ignoring case, tokens with equal labels in slot order.
pub fn list_tokens(slots: &Vec<SlotToken>, module: &std::path::PathBuf) -> (r: Vec<HardwareToken>)
    ensures
        r@.len() == usable_tokens(slots@).len(),
        forall|i: int| #![trigger r@[i]] 0 <= i < r@.len() ==> {
            let pos = stable_order(
                crate::stores::label_keys(usable_tokens(slots@).map_values(|t: (Seq<char>, Seq<char>, u64)| t.0)),
                usable_tokens(slots@).len() as int,
            )[i];
            &&& r@[i].label@ == usable_tokens(slots@)[pos].0
            &&& r@[i].serial@ == usable_tokens(slots@)[pos].1
            &&& r@[i].slot_id == usable_tokens(slots@)[pos].2
            &&& r@[i].module_file == *module
        },
{
    let mut found: Vec<HardwareToken> = Vec::new();
    let mut labels: Vec<String> = Vec::new();
    let mut i: usize = 0;
    while i < slots.len()
        invariant
            i <= slots@.len(),
            found@.len() == usable_tokens(slots@.subrange(0, i as int)).len(),
            labels@.len() == found@.len(),
            forall|j: int| #![trigger found@[j]] 0 <= j < found@.len() ==> {
                &&& found@[j].label@ == usable_tokens(slots@.subrange(0, i as int))[j].0
                &&& found@[j].serial@ == usable_tokens(slots@.subrange(0, i as int))[j].1
                &&& found@[j].slot_id == usable_tokens(slots@.subrange(0, i as int))[j].2
                &&& found@[j].module_file == *module
                &&& labels@[j]@ == found@[j].label@
            },
        decreases slots@.len() - i,
    {
        proof {
            assert(slots@.subrange(0, i + 1).drop_last() =~= slots@.subrange(0, i as int));
            assert(slots@.subrange(0, i + 1).last() == slots@[i as int]);
        }
        let slot = &slots[i];
        if slot.initialized {
            let label = trim(slot.label.as_str());
            labels.push(trim(slot.label.as_str()));
            found.push(
                HardwareToken {
                    label,
                    serial: trim(slot.serial.as_str()),
                    module_file: module.clone(),
                    slot_id: slot.slot_id,
                },
            );
        }
        i = i + 1;
    }
    assert(slots@.subrange(0, slots@.len() as int) =~= slots@);
    let ghost usable = usable_tokens(slots@);
    assert(usable_tokens(slots@.subrange(0, slots@.len() as int)) == usable);
    assert(labels@.len() == usable.len());
    let ghost label_text = labels@.map_values(|l: String| l@);
    let ghost usable_labels = usable.map_values(|t: (Seq<char>, Seq<char>, u64)| t.0);
    assert forall|j: int| 0 <= j < usable.len() implies #[trigger] label_text[j] == usable_labels[j] by {
        assert(found@[j].label@ == usable[j].0);
    }
    assert(labels@.map_values(|l: String| l@) =~= usable.map_values(|t: (Seq<char>, Seq<char>, u64)| t.0));
    let order = order_by_label(&labels);
    let ghost keys = crate::stores::label_keys(usable.map_values(|t: (Seq<char>, Seq<char>, u64)| t.0));
    let ghost ord = stable_order(keys, usable.len() as int);
    proof {
        crate::order::lemma_stable_order_in_range(keys, usable.len() as int);
    }
    let mut out: Vec<HardwareToken> = Vec::new();
    let mut k: usize = 0;
    while k < order.len()
        invariant
            k <= order@.len(),
            order@.len() == found@.len(),
            found@.len() == usable.len(),
            usable == usable_tokens(slots@),
            out@.len() == k,
            keys == crate::stores::label_keys(usable.map_values(|t: (Seq<char>, Seq<char>, u64)| t.0)),
            ord == stable_order(keys, usable.len() as int),
            order@.map_values(|p: usize| p as int) == ord,
            forall|q: int| 0 <= q < order@.len() ==> 0 <= #[trigger] ord[q] < usable.len(),
            forall|j: int| #![trigger found@[j]] 0 <= j < found@.len() ==> {
                &&& found@[j].label@ == usable[j].0
                &&& found@[j].serial@ == usable[j].1
                &&& found@[j].slot_id == usable[j].2
                &&& found@[j].module_file == *module
            },
            forall|j: int| #![trigger out@[j]] 0 <= j < k ==> {
                let pos = ord[j];
                &&& out@[j].label@ == usable[pos].0
                &&& out@[j].serial@ == usable[pos].1
                &&& out@[j].slot_id == usable[pos].2
                &&& out@[j].module_file == *module
            },
        decreases order@.len() - k,
    {
        proof {
            assert(order@.map_values(|p: usize| p as int)[k as int] == order@[k as int] as int);
        }
        let p = order[k];
        let t = &found[p];
        out.push(
            HardwareToken {
                label: t.label.clone(),
                serial: t.serial.clone(),
                module_file: t.module_file.clone(),
                slot_id: t.slot_id,
            },
        );
        k = k + 1;
    }
    out
}

/// Whether a slot's token is the one chosen earlier: the same serial and
/// label once trimmed. Slot identifiers change when a module is reloaded
/// or a token reconnected; serial and label do not.
pub fn token_is(serial: &str, label: &str, chosen: &HardwareToken) -> (r: bool)
    ensures
        r == (trimmed(serial@) == chosen.serial@ && trimmed(label@) == chosen.label@),
{
    chars_equal(&chars_of(trim(serial).as_str()), &chars_of(chosen.serial.as_str())) && chars_equal(
        &chars_of(trim(label).as_str()),
        &chars_of(chosen.label.as_str()),
    )
}

} // verus!
