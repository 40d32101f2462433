//! Deterministic device classification and presentation artwork selection.

use vstd::prelude::*;

use crate::device::{DeviceFamily, DeviceVisual, VisualConfidence};
use crate::text::{ascii_lower, contains_chars, lower_char, seq_ascii_lower, seq_contains};

verus! {

/// Metadata available to the universal classifier.
#[derive(Debug, Clone, Copy)]
pub struct ClassificationInput<'a> {
    /// Best user-visible name.
    pub name: &'a str,
    /// Reliable manufacturer name when available.
    pub manufacturer: Option<&'a str>,
    /// Reliable model name when available.
    pub model: Option<&'a str>,
    /// `BlueZ` icon hint.
    pub icon: Option<&'a str>,
    /// Bluetooth Class of Device.
    pub class: Option<u32>,
    /// Bluetooth appearance value.
    pub appearance: Option<u16>,
    /// Service UUIDs in lowercase canonical form.
    pub service_uuids: &'a [String],
    /// Strong protocol or platform family hint.
    pub family_hint: DeviceFamily,
}

/// Device category and artwork selected independently from battery values.
#[derive(Debug, Clone, PartialEq, Eq)]
pub struct DeviceClassification {
    /// Broad category used by layout logic.
    pub family: DeviceFamily,
    /// Exact, category, or fallback artwork.
    pub visual: DeviceVisual,
}

/// `s` followed by a space when present, nothing when absent.
pub open spec fn part(s: Option<&str>) -> Seq<char> {
    match s {
        Some(x) => x@ + " "@,
        None => Seq::empty(),
    }
}

/// The lower-case identity text: manufacturer, model and name joined by spaces.
pub open spec fn identity_of(input: ClassificationInput) -> Seq<char> {
    seq_ascii_lower(part(input.manufacturer) + part(input.model) + input.name@)
}

/// The lower-case icon hint, empty when absent.
pub open spec fn icon_of(input: ClassificationInput) -> Seq<char> {
    match input.icon {
        Some(x) => seq_ascii_lower(x@),
        None => Seq::empty(),
    }
}

/// QCY earbud and headset series, by the first series name the identity holds.
pub open spec fn qcy_series_of(identity: Seq<char>) -> (DeviceFamily, Seq<char>, VisualConfidence) {
    if (seq_contains(identity, "t13 pro"@)) {
        (DeviceFamily::Earbuds, "qcy-t13-pro"@, VisualConfidence::Exact)
    } else if (seq_contains(identity, "t13 anc"@)) {
        (DeviceFamily::Earbuds, "qcy-t13-anc"@, VisualConfidence::Exact)
    } else if (seq_contains(identity, "t13x"@)) {
        (DeviceFamily::Earbuds, "qcy-t13x"@, VisualConfidence::Exact)
    } else if (seq_contains(identity, "t17"@)) {
        (DeviceFamily::Earbuds, "qcy-t17"@, VisualConfidence::Exact)
    } else if (seq_contains(identity, "ailybuds pro+"@)) {
        (DeviceFamily::Earbuds, "qcy-ailybuds-pro-plus"@, VisualConfidence::Exact)
    } else if (seq_contains(identity, "ailybuds e10"@)) {
        (DeviceFamily::Earbuds, "qcy-ailybuds-e10"@, VisualConfidence::Exact)
    } else if (seq_contains(identity, "ailybuds clear"@)) {
        (DeviceFamily::Earbuds, "qcy-ailybuds-clear"@, VisualConfidence::Exact)
    } else if (seq_contains(identity, "qcy air"@)) {
        (DeviceFamily::Earbuds, "qcy-air"@, VisualConfidence::Exact)
    } else if (seq_contains(identity, "qcy buds anc"@)) {
        (DeviceFamily::Earbuds, "qcy-buds-anc"@, VisualConfidence::Exact)
    } else if (seq_contains(identity, "qcy buds"@)) {
        (DeviceFamily::Earbuds, "qcy-buds"@, VisualConfidence::Exact)
    } else if (seq_contains(identity, "arcbuds lite"@)) {
        (DeviceFamily::Earbuds, "qcy-arcbuds-lite"@, VisualConfidence::Exact)
    } else if (seq_contains(identity, "arcbuds"@)) {
        (DeviceFamily::Earbuds, "qcy-arcbuds"@, VisualConfidence::Exact)
    } else if (seq_contains(identity, "h3 pro"@)) {
        (DeviceFamily::Headset, "qcy-h3-pro"@, VisualConfidence::Exact)
    } else if (seq_contains(identity, "h3 lite"@)) {
        (DeviceFamily::Headset, "qcy-h3-lite"@, VisualConfidence::Exact)
    } else if (seq_contains(identity, "h3s"@)) {
        (DeviceFamily::Headset, "qcy-h3s"@, VisualConfidence::Exact)
    } else if (seq_contains(identity, "qcy h3"@)) {
        (DeviceFamily::Headset, "qcy-h3"@, VisualConfidence::Exact)
    } else if (seq_contains(identity, "h2 pro"@)) {
        (DeviceFamily::Headset, "qcy-h2-pro"@, VisualConfidence::Exact)
    } else if (seq_contains(identity, "crossky"@)) {
        (DeviceFamily::Earbuds, "qcy-crossky"@, VisualConfidence::Exact)
    } else if (seq_contains(identity, "ailybuds"@)) {
        (DeviceFamily::Earbuds, "qcy-ailybuds"@, VisualConfidence::Exact)
    } else if (seq_contains(identity, "melobuds"@)) {
        (DeviceFamily::Earbuds, "qcy-melobuds"@, VisualConfidence::Exact)
    } else {
        (DeviceFamily::Earbuds, "qcy-t13"@, VisualConfidence::Exact)
    }
}

/// QCY model artwork: the first model name the identity holds, else the series.
pub open spec fn qcy_model_of(identity: Seq<char>) -> (DeviceFamily, Seq<char>, VisualConfidence) {
    if (seq_contains(identity, "crossky c50"@)) {
        (DeviceFamily::Earbuds, "qcy-crossky-c50"@, VisualConfidence::Exact)
    } else if (seq_contains(identity, "crossky c30s"@)) {
        (DeviceFamily::Earbuds, "qcy-crossky-c30s"@, VisualConfidence::Exact)
    } else if (seq_contains(identity, "crossky c30"@)) {
        (DeviceFamily::Earbuds, "qcy-crossky-c30"@, VisualConfidence::Exact)
    } else if (seq_contains(identity, "crossky c10"@)) {
        (DeviceFamily::Earbuds, "qcy-crossky-c10"@, VisualConfidence::Exact)
    } else if (seq_contains(identity, "crossky r70"@)) {
        (DeviceFamily::Earbuds, "qcy-crossky-r70"@, VisualConfidence::Exact)
    } else if (seq_contains(identity, "crossky link"@)) {
        (DeviceFamily::Earbuds, "qcy-crossky-link"@, VisualConfidence::Exact)
    } else if (seq_contains(identity, "crossky gtr2"@)) {
        (DeviceFamily::Earbuds, "qcy-crossky-gtr2"@, VisualConfidence::Exact)
    } else if (seq_contains(identity, "melobuds n70"@)) {
        (DeviceFamily::Earbuds, "qcy-melobuds-n70"@, VisualConfidence::Exact)
    } else if (seq_contains(identity, "melobuds n60"@)) {
        (DeviceFamily::Earbuds, "qcy-melobuds-n60"@, VisualConfidence::Exact)
    } else if (seq_contains(identity, "melobuds a30"@)) {
        (DeviceFamily::Earbuds, "qcy-melobuds-a30"@, VisualConfidence::Exact)
    } else if (seq_contains(identity, "melobuds n20"@)) {
        (DeviceFamily::Earbuds, "qcy-melobuds-n20"@, VisualConfidence::Exact)
    } else if (seq_contains(identity, "melobuds n50"@)) {
        (DeviceFamily::Earbuds, "qcy-melobuds-n50"@, VisualConfidence::Exact)
    } else if (seq_contains(identity, "melobuds n65"@)) {
        (DeviceFamily::Earbuds, "qcy-melobuds-n65"@, VisualConfidence::Exact)
    } else if (seq_contains(identity, "melobuds neo"@)) {
        (DeviceFamily::Earbuds, "qcy-melobuds-neo"@, VisualConfidence::Exact)
    } else if (seq_contains(identity, "melobuds anc"@)) {
        (DeviceFamily::Earbuds, "qcy-melobuds-anc"@, VisualConfidence::Exact)
    } else if (seq_contains(identity, "melobuds pro"@)) {
        (DeviceFamily::Earbuds, "qcy-melobuds-pro"@, VisualConfidence::Exact)
    } else if (seq_contains(identity, "t13 anc 2"@)) {
        (DeviceFamily::Earbuds, "qcy-t13-anc-2"@, VisualConfidence::Exact)
    } else {
        qcy_series_of(identity)
    }
}

/// QCY products: speakers, watches and the Heroad headset before the earbud models.
pub open spec fn qcy_classification_of(identity: Seq<char>) -> (DeviceFamily, Seq<char>, VisualConfidence) {
    if (seq_contains(identity, "qcy sp7"@) || seq_contains(identity, "qcy speaker"@)) {
        (DeviceFamily::Speaker, "speaker-generic"@, VisualConfidence::Category)
    } else if (seq_contains(identity, "qcy watch"@) || seq_contains(identity, "watch gs2"@) || seq_contains(identity, "watch gt2"@) || seq_contains(identity, "urban gs"@) || seq_contains(identity, "active gt"@)) {
        (DeviceFamily::GenericBle, "bluetooth"@, VisualConfidence::Fallback)
    } else if (seq_contains(identity, "heroad"@) || seq_contains(identity, "vt200"@) || seq_contains(identity, "v200"@) || seq_contains(identity, "gt2 tri-mode"@)) {
        (DeviceFamily::Headset, "qcy-heroad"@, VisualConfidence::Exact)
    } else {
        qcy_model_of(identity)
    }
}

/// AirPods models by name, then any AirPods by name or hint.
pub open spec fn apple_rule(identity: Seq<char>, icon: Seq<char>, class: Option<u32>, appearance: Option<u16>, hint: DeviceFamily) -> Option<(DeviceFamily, Seq<char>, VisualConfidence)> {
    if (seq_contains(identity, "airpods pro 3"@) || seq_contains(identity, "airpods pro (3rd"@)) {
        Some((DeviceFamily::AirPods, "airpods-pro-3"@, VisualConfidence::Exact))
    } else if (seq_contains(identity, "airpods pro (1st"@) || seq_contains(identity, "airpods pro 1"@)) {
        Some((DeviceFamily::AirPods, "airpods-pro-1"@, VisualConfidence::Exact))
    } else if (seq_contains(identity, "airpods pro"@)) {
        Some((DeviceFamily::AirPods, "airpods-pro-2"@, VisualConfidence::Exact))
    } else if (seq_contains(identity, "airpods max 2"@)) {
        Some((DeviceFamily::Headset, "airpods-max-2"@, VisualConfidence::Exact))
    } else if (seq_contains(identity, "airpods max"@)) {
        Some((DeviceFamily::Headset, "airpods-max"@, VisualConfidence::Exact))
    } else if (seq_contains(identity, "airpods 4"@) || seq_contains(identity, "airpods (4th"@)) {
        Some((DeviceFamily::AirPods, "airpods-4"@, VisualConfidence::Exact))
    } else if (seq_contains(identity, "airpods 3"@) || seq_contains(identity, "airpods (3rd"@)) {
        Some((DeviceFamily::AirPods, "airpods-3"@, VisualConfidence::Exact))
    } else if (seq_contains(identity, "airpods 2"@) || seq_contains(identity, "airpods (2nd"@)) {
        Some((DeviceFamily::AirPods, "airpods-2"@, VisualConfidence::Exact))
    } else if (seq_contains(identity, "airpods 1"@) || seq_contains(identity, "airpods (1st"@)) {
        Some((DeviceFamily::AirPods, "airpods-1"@, VisualConfidence::Exact))
    } else if (seq_contains(identity, "airpods"@) || hint == DeviceFamily::AirPods) {
        Some((DeviceFamily::AirPods, "airpods-generic"@, VisualConfidence::Category))
    } else {
        None
    }
}

/// QCY products, recognised by the brand name.
pub open spec fn qcy_rule(identity: Seq<char>, icon: Seq<char>, class: Option<u32>, appearance: Option<u16>, hint: DeviceFamily) -> Option<(DeviceFamily, Seq<char>, VisualConfidence)> {
    if (seq_contains(identity, "qcy"@)) {
        Some(qcy_classification_of(identity))
    } else {
        None
    }
}

/// Xiaomi, Redmi, Soundcore, Samsung and Sony earbuds.
pub open spec fn brand_rule(identity: Seq<char>, icon: Seq<char>, class: Option<u32>, appearance: Option<u16>, hint: DeviceFamily) -> Option<(DeviceFamily, Seq<char>, VisualConfidence)> {
    if (seq_contains(identity, "xiaomi buds"@)) {
        if (seq_contains(identity, "buds 6"@)) {
            Some((DeviceFamily::Earbuds, "xiaomi-buds-6"@, VisualConfidence::Exact))
        } else {
            Some((DeviceFamily::Earbuds, "xiaomi-buds-5"@, VisualConfidence::Exact))
        }
    } else if (seq_contains(identity, "redmi buds"@)) {
        if (seq_contains(identity, "buds 8"@)) {
            Some((DeviceFamily::Earbuds, "redmi-buds-8"@, VisualConfidence::Exact))
        } else if (seq_contains(identity, "buds 6"@)) {
            Some((DeviceFamily::Earbuds, "redmi-buds-6"@, VisualConfidence::Exact))
        } else if (seq_contains(identity, "buds 5"@)) {
            Some((DeviceFamily::Earbuds, "redmi-buds-5"@, VisualConfidence::Exact))
        } else if (seq_contains(identity, "buds 4"@)) {
            Some((DeviceFamily::Earbuds, "redmi-buds-4"@, VisualConfidence::Exact))
        } else if (seq_contains(identity, "buds 3"@)) {
            Some((DeviceFamily::Earbuds, "redmi-buds-3"@, VisualConfidence::Exact))
        } else {
            Some((DeviceFamily::Earbuds, "redmi-buds"@, VisualConfidence::Exact))
        }
    } else if (seq_contains(identity, "soundcore"@) || seq_contains(identity, "liberty"@)) {
        if (seq_contains(identity, "sport x20"@) || seq_contains(identity, "sport-x20"@)) {
            Some((DeviceFamily::Earbuds, "soundcore-sport-x20"@, VisualConfidence::Exact))
        } else if (seq_contains(identity, "aerofit"@)) {
            Some((DeviceFamily::Earbuds, "soundcore-aerofit"@, VisualConfidence::Exact))
        } else if (seq_contains(identity, "space a40"@)) {
            Some((DeviceFamily::Earbuds, "soundcore-space-a40"@, VisualConfidence::Exact))
        } else if (seq_contains(identity, "sleep"@)) {
            Some((DeviceFamily::Earbuds, "soundcore-sleep"@, VisualConfidence::Exact))
        } else if (seq_contains(identity, "liberty"@)) {
            Some((DeviceFamily::Earbuds, "soundcore-liberty"@, VisualConfidence::Exact))
        } else if (seq_contains(identity, "p20"@) || seq_contains(identity, "p25"@) || seq_contains(identity, "p30"@) || seq_contains(identity, "p40"@) || seq_contains(identity, "p41"@)) {
            Some((DeviceFamily::Earbuds, "soundcore-p-series"@, VisualConfidence::Exact))
        } else {
            Some((DeviceFamily::Earbuds, "soundcore-earbuds"@, VisualConfidence::Exact))
        }
    } else if (seq_contains(identity, "galaxy buds"@)) {
        if (seq_contains(identity, "buds4"@)) {
            Some((DeviceFamily::Earbuds, "galaxy-buds4"@, VisualConfidence::Exact))
        } else if (seq_contains(identity, "buds3"@)) {
            Some((DeviceFamily::Earbuds, "galaxy-buds3"@, VisualConfidence::Exact))
        } else if (seq_contains(identity, "live"@)) {
            Some((DeviceFamily::Earbuds, "galaxy-buds-live"@, VisualConfidence::Exact))
        } else if (seq_contains(identity, "fe"@)) {
            Some((DeviceFamily::Earbuds, "galaxy-buds-fe"@, VisualConfidence::Exact))
        } else if (seq_contains(identity, "buds2"@)) {
            Some((DeviceFamily::Earbuds, "galaxy-buds2"@, VisualConfidence::Exact))
        } else {
            Some((DeviceFamily::Earbuds, "galaxy-buds"@, VisualConfidence::Exact))
        }
    } else if (seq_contains(identity, "linkbuds open"@) || seq_contains(identity, "wf-l910"@)) {
        Some((DeviceFamily::Earbuds, "sony-linkbuds-open"@, VisualConfidence::Exact))
    } else if (seq_contains(identity, "linkbuds fit"@) || seq_contains(identity, "wf-ls910"@)) {
        Some((DeviceFamily::Earbuds, "sony-linkbuds-fit"@, VisualConfidence::Exact))
    } else if (seq_contains(identity, "wf-1000xm5"@)) {
        Some((DeviceFamily::Earbuds, "sony-wf-1000xm5"@, VisualConfidence::Exact))
    } else if (seq_contains(identity, "wf-1000xm4"@)) {
        Some((DeviceFamily::Earbuds, "sony-wf-1000xm4"@, VisualConfidence::Exact))
    } else if (seq_contains(identity, "sony"@) && seq_contains(identity, "wf-"@)) {
        Some((DeviceFamily::Earbuds, "sony-wf"@, VisualConfidence::Category))
    } else {
        None
    }
}

/// JBL, Google, Nothing, OnePlus, Huawei and Beats products.
pub open spec fn second_brand_rule(identity: Seq<char>, icon: Seq<char>, class: Option<u32>, appearance: Option<u16>, hint: DeviceFamily) -> Option<(DeviceFamily, Seq<char>, VisualConfidence)> {
    if (seq_contains(identity, "jbl"@)) {
        if (seq_contains(identity, "jbl free"@)) {
            Some((DeviceFamily::Earbuds, "jbl-free"@, VisualConfidence::Exact))
        } else if (seq_contains(identity, "live buds"@) || seq_contains(identity, "tune buds"@)) {
            if (seq_contains(identity, "live buds"@)) {
                Some((DeviceFamily::Earbuds, "jbl-live-buds"@, VisualConfidence::Exact))
            } else {
                Some((DeviceFamily::Earbuds, "jbl-tune-buds"@, VisualConfidence::Exact))
            }
        } else if (seq_contains(identity, "tour pro"@)) {
            Some((DeviceFamily::Earbuds, "jbl-tour-pro"@, VisualConfidence::Exact))
        } else if (seq_contains(identity, "live beam"@)) {
            Some((DeviceFamily::Earbuds, "jbl-live-beam"@, VisualConfidence::Exact))
        } else if (seq_contains(identity, "tune beam"@)) {
            Some((DeviceFamily::Earbuds, "jbl-tune-beam"@, VisualConfidence::Exact))
        } else if (seq_contains(identity, "charge"@) || seq_contains(identity, "speaker"@)) {
            Some((DeviceFamily::Speaker, "speaker-generic"@, VisualConfidence::Exact))
        } else {
            Some((DeviceFamily::Earbuds, "jbl-earbuds"@, VisualConfidence::Exact))
        }
    } else if (seq_contains(identity, "pixel buds"@)) {
        if (seq_contains(identity, "2a"@)) {
            Some((DeviceFamily::Earbuds, "pixel-buds-2a"@, VisualConfidence::Exact))
        } else if (seq_contains(identity, "pro"@)) {
            Some((DeviceFamily::Earbuds, "pixel-buds-pro"@, VisualConfidence::Exact))
        } else {
            Some((DeviceFamily::Earbuds, "pixel-buds"@, VisualConfidence::Exact))
        }
    } else if (seq_contains(identity, "nothing ear"@)) {
        if (seq_contains(identity, "open"@)) {
            Some((DeviceFamily::Earbuds, "nothing-ear-open"@, VisualConfidence::Exact))
        } else if (seq_contains(identity, "(a)"@) || seq_contains(identity, "ear a"@)) {
            Some((DeviceFamily::Earbuds, "nothing-ear-a"@, VisualConfidence::Exact))
        } else if (seq_contains(identity, "nothing ear (1)"@) || seq_contains(identity, "nothing ear 1"@)) {
            Some((DeviceFamily::Earbuds, "nothing-ear-1"@, VisualConfidence::Exact))
        } else {
            Some((DeviceFamily::Earbuds, "nothing-ear"@, VisualConfidence::Exact))
        }
    } else if (seq_contains(identity, "oneplus"@) && seq_contains(identity, "buds"@)) {
        if (seq_contains(identity, "nord"@)) {
            Some((DeviceFamily::Earbuds, "oneplus-nord-buds"@, VisualConfidence::Exact))
        } else if (seq_contains(identity, "pro"@)) {
            Some((DeviceFamily::Earbuds, "oneplus-buds-pro"@, VisualConfidence::Exact))
        } else {
            Some((DeviceFamily::Earbuds, "oneplus-buds"@, VisualConfidence::Exact))
        }
    } else if (seq_contains(identity, "freeclip"@)) {
        Some((DeviceFamily::Earbuds, "huawei-freeclip"@, VisualConfidence::Exact))
    } else if (seq_contains(identity, "freebuds"@)) {
        if (seq_contains(identity, "freebuds 6"@)) {
            Some((DeviceFamily::Earbuds, "huawei-freebuds-6"@, VisualConfidence::Exact))
        } else if (seq_contains(identity, "pro"@)) {
            Some((DeviceFamily::Earbuds, "huawei-freebuds-pro"@, VisualConfidence::Exact))
        } else {
            Some((DeviceFamily::Earbuds, "huawei-freebuds"@, VisualConfidence::Exact))
        }
    } else if (seq_contains(identity, "beats fit pro"@)) {
        Some((DeviceFamily::Earbuds, "beats-fit-pro"@, VisualConfidence::Exact))
    } else if (seq_contains(identity, "beats studio buds"@)) {
        if (seq_contains(identity, "plus"@) || seq_contains(identity, "buds +"@)) {
            Some((DeviceFamily::Earbuds, "beats-studio-buds-plus"@, VisualConfidence::Exact))
        } else {
            Some((DeviceFamily::Earbuds, "beats-studio-buds"@, VisualConfidence::Exact))
        }
    } else if (seq_contains(identity, "beats"@) && (seq_contains(identity, "buds"@) || seq_contains(identity, "fit"@))) {
        Some((DeviceFamily::Earbuds, "beats-earbuds"@, VisualConfidence::Category))
    } else {
        None
    }
}

/// Categories named by the identity, icon hint or appearance.
pub open spec fn category_rule(identity: Seq<char>, icon: Seq<char>, class: Option<u32>, appearance: Option<u16>, hint: DeviceFamily) -> Option<(DeviceFamily, Seq<char>, VisualConfidence)> {
    if (seq_contains(identity, "buds"@) || seq_contains(identity, "earbud"@) || seq_contains(identity, "tws"@)) {
        Some((DeviceFamily::Earbuds, "earbuds-generic"@, VisualConfidence::Category))
    } else if (seq_contains(identity, "jbl charge"@) || seq_contains(identity, "speaker"@) || seq_contains(icon, "audio-speakers"@)) {
        Some((DeviceFamily::Speaker, "speaker-generic"@, VisualConfidence::Category))
    } else if (seq_contains(identity, "mx master"@) || seq_contains(identity, "mouse"@) || seq_contains(icon, "mouse"@) || appearance == Some(0x03c2u16)) {
        Some((DeviceFamily::Mouse, "mouse-generic"@, VisualConfidence::Category))
    } else if (seq_contains(identity, "keychron"@) || seq_contains(identity, "keyboard"@) || seq_contains(icon, "keyboard"@) || appearance == Some(0x03c1u16)) {
        Some((DeviceFamily::Keyboard, "keyboard-generic"@, VisualConfidence::Category))
    } else if (seq_contains(identity, "controller"@) || seq_contains(identity, "gamepad"@) || seq_contains(identity, "joystick"@) || appearance == Some(0x03c4u16) || appearance == Some(0x03c5u16)) {
        Some((DeviceFamily::GameController, "game-controller-generic"@, VisualConfidence::Category))
    } else if (seq_contains(identity, "pencil"@) || seq_contains(identity, "stylus"@) || seq_contains(identity, "digital pen"@) || appearance == Some(0x03c6u16) || appearance == Some(0x03c8u16)) {
        Some((DeviceFamily::Stylus, "stylus-generic"@, VisualConfidence::Category))
    } else if (seq_contains(identity, "wh-"@) || seq_contains(identity, "headphone"@) || seq_contains(identity, "headset"@) || seq_contains(icon, "headset"@) || seq_contains(icon, "headphones"@)) {
        Some((DeviceFamily::Headset, "headset-generic"@, VisualConfidence::Category))
    } else {
        None
    }
}

/// The family hint, then an audio class of device.
pub open spec fn hint_rule(identity: Seq<char>, icon: Seq<char>, class: Option<u32>, appearance: Option<u16>, hint: DeviceFamily) -> Option<(DeviceFamily, Seq<char>, VisualConfidence)> {
    if hint == DeviceFamily::Earbuds {
        Some((DeviceFamily::Earbuds, "earbuds-generic"@, VisualConfidence::Category))
    } else if hint == DeviceFamily::Headset {
        Some((DeviceFamily::Headset, "headset-generic"@, VisualConfidence::Category))
    } else if hint == DeviceFamily::Speaker {
        Some((DeviceFamily::Speaker, "speaker-generic"@, VisualConfidence::Category))
    } else if hint == DeviceFamily::Mouse {
        Some((DeviceFamily::Mouse, "mouse-generic"@, VisualConfidence::Category))
    } else if hint == DeviceFamily::Keyboard {
        Some((DeviceFamily::Keyboard, "keyboard-generic"@, VisualConfidence::Category))
    } else if hint == DeviceFamily::GameController {
        Some((DeviceFamily::GameController, "game-controller-generic"@, VisualConfidence::Category))
    } else if hint == DeviceFamily::Stylus {
        Some((DeviceFamily::Stylus, "stylus-generic"@, VisualConfidence::Category))
    } else if hint == DeviceFamily::GenericBle {
        Some((DeviceFamily::GenericBle, "bluetooth"@, VisualConfidence::Fallback))
    } else if hint == DeviceFamily::AirPods {
        Some((DeviceFamily::AirPods, "airpods-generic"@, VisualConfidence::Category))
    } else if (class matches Some(v) && (v >> 8u32) & 0x1fu32 == 0x04u32) {
        Some((DeviceFamily::Headset, "headset-generic"@, VisualConfidence::Category))
    } else {
        None
    }
}

/// Family, artwork key and confidence for an identity text, icon hint, class
/// of device, appearance and family hint: the first group of rules that
/// decides, in order, else unknown with the fallback artwork.
pub open spec fn classification_of(identity: Seq<char>, icon: Seq<char>, class: Option<u32>, appearance: Option<u16>, hint: DeviceFamily) -> (DeviceFamily, Seq<char>, VisualConfidence) {
    match apple_rule(identity, icon, class, appearance, hint) {
        Some(t) => t,
        None => match qcy_rule(identity, icon, class, appearance, hint) {
            Some(t) => t,
            None => match brand_rule(identity, icon, class, appearance, hint) {
                Some(t) => t,
                None => match second_brand_rule(identity, icon, class, appearance, hint) {
                    Some(t) => t,
                    None => match category_rule(identity, icon, class, appearance, hint) {
                        Some(t) => t,
                        None => match hint_rule(identity, icon, class, appearance, hint) {
                            Some(t) => t,
                            None => (DeviceFamily::Unknown, "bluetooth"@, VisualConfidence::Fallback),
                        },
                    },
                },
            },
        },
    }
}
fn result(family: DeviceFamily, key: &str, confidence: VisualConfidence) -> (r: DeviceClassification)
    ensures
        r.family == family,
        r.visual.key@ == key@,
        r.visual.confidence == confidence,
{
    DeviceClassification { family, visual: DeviceVisual { key: key.to_owned(), confidence } }
}

fn push_lower(out: &mut Vec<char>, s: &str)
    ensures
        final(out)@ == old(out)@ + seq_ascii_lower(s@),
{
    let n = s.unicode_len();
    let mut i: usize = 0;
    let ghost start = out@;
    while i < n
        invariant
            n == s@.len(),
            i <= n,
            out@ == start + seq_ascii_lower(s@.take(i as int)),
        decreases n - i,
    {
        let c = s.get_char(i);
        out.push(lower_char(c));
        assert(seq_ascii_lower(s@.take(i + 1)) =~= seq_ascii_lower(s@.take(i as int)).push(ascii_lower(c)));
        i = i + 1;
    }
    assert(s@.take(n as int) =~= s@);
}

fn qcy_series(identity: &Vec<char>) -> (r: DeviceClassification)
    ensures
        (r.family, r.visual.key@, r.visual.confidence) == qcy_series_of(identity@),
{
    if (contains_chars(identity, "t13 pro")) {
        result(DeviceFamily::Earbuds, "qcy-t13-pro", VisualConfidence::Exact)
    } else if (contains_chars(identity, "t13 anc")) {
        result(DeviceFamily::Earbuds, "qcy-t13-anc", VisualConfidence::Exact)
    } else if (contains_chars(identity, "t13x")) {
        result(DeviceFamily::Earbuds, "qcy-t13x", VisualConfidence::Exact)
    } else if (contains_chars(identity, "t17")) {
        result(DeviceFamily::Earbuds, "qcy-t17", VisualConfidence::Exact)
    } else if (contains_chars(identity, "ailybuds pro+")) {
        result(DeviceFamily::Earbuds, "qcy-ailybuds-pro-plus", VisualConfidence::Exact)
    } else if (contains_chars(identity, "ailybuds e10")) {
        result(DeviceFamily::Earbuds, "qcy-ailybuds-e10", VisualConfidence::Exact)
    } else if (contains_chars(identity, "ailybuds clear")) {
        result(DeviceFamily::Earbuds, "qcy-ailybuds-clear", VisualConfidence::Exact)
    } else if (contains_chars(identity, "qcy air")) {
        result(DeviceFamily::Earbuds, "qcy-air", VisualConfidence::Exact)
    } else if (contains_chars(identity, "qcy buds anc")) {
        result(DeviceFamily::Earbuds, "qcy-buds-anc", VisualConfidence::Exact)
    } else if (contains_chars(identity, "qcy buds")) {
        result(DeviceFamily::Earbuds, "qcy-buds", VisualConfidence::Exact)
    } else if (contains_chars(identity, "arcbuds lite")) {
        result(DeviceFamily::Earbuds, "qcy-arcbuds-lite", VisualConfidence::Exact)
    } else if (contains_chars(identity, "arcbuds")) {
        result(DeviceFamily::Earbuds, "qcy-arcbuds", VisualConfidence::Exact)
    } else if (contains_chars(identity, "h3 pro")) {
        result(DeviceFamily::Headset, "qcy-h3-pro", VisualConfidence::Exact)
    } else if (contains_chars(identity, "h3 lite")) {
        result(DeviceFamily::Headset, "qcy-h3-lite", VisualConfidence::Exact)
    } else if (contains_chars(identity, "h3s")) {
        result(DeviceFamily::Headset, "qcy-h3s", VisualConfidence::Exact)
    } else if (contains_chars(identity, "qcy h3")) {
        result(DeviceFamily::Headset, "qcy-h3", VisualConfidence::Exact)
    } else if (contains_chars(identity, "h2 pro")) {
        result(DeviceFamily::Headset, "qcy-h2-pro", VisualConfidence::Exact)
    } else if (contains_chars(identity, "crossky")) {
        result(DeviceFamily::Earbuds, "qcy-crossky", VisualConfidence::Exact)
    } else if (contains_chars(identity, "ailybuds")) {
        result(DeviceFamily::Earbuds, "qcy-ailybuds", VisualConfidence::Exact)
    } else if (contains_chars(identity, "melobuds")) {
        result(DeviceFamily::Earbuds, "qcy-melobuds", VisualConfidence::Exact)
    } else {
        result(DeviceFamily::Earbuds, "qcy-t13", VisualConfidence::Exact)
    }
}

fn qcy_model(identity: &Vec<char>) -> (r: DeviceClassification)
    ensures
        (r.family, r.visual.key@, r.visual.confidence) == qcy_model_of(identity@),
{
    if (contains_chars(identity, "crossky c50")) {
        result(DeviceFamily::Earbuds, "qcy-crossky-c50", VisualConfidence::Exact)
    } else if (contains_chars(identity, "crossky c30s")) {
        result(DeviceFamily::Earbuds, "qcy-crossky-c30s", VisualConfidence::Exact)
    } else if (contains_chars(identity, "crossky c30")) {
        result(DeviceFamily::Earbuds, "qcy-crossky-c30", VisualConfidence::Exact)
    } else if (contains_chars(identity, "crossky c10")) {
        result(DeviceFamily::Earbuds, "qcy-crossky-c10", VisualConfidence::Exact)
    } else if (contains_chars(identity, "crossky r70")) {
        result(DeviceFamily::Earbuds, "qcy-crossky-r70", VisualConfidence::Exact)
    } else if (contains_chars(identity, "crossky link")) {
        result(DeviceFamily::Earbuds, "qcy-crossky-link", VisualConfidence::Exact)
    } else if (contains_chars(identity, "crossky gtr2")) {
        result(DeviceFamily::Earbuds, "qcy-crossky-gtr2", VisualConfidence::Exact)
    } else if (contains_chars(identity, "melobuds n70")) {
        result(DeviceFamily::Earbuds, "qcy-melobuds-n70", VisualConfidence::Exact)
    } else if (contains_chars(identity, "melobuds n60")) {
        result(DeviceFamily::Earbuds, "qcy-melobuds-n60", VisualConfidence::Exact)
    } else if (contains_chars(identity, "melobuds a30")) {
        result(DeviceFamily::Earbuds, "qcy-melobuds-a30", VisualConfidence::Exact)
    } else if (contains_chars(identity, "melobuds n20")) {
        result(DeviceFamily::Earbuds, "qcy-melobuds-n20", VisualConfidence::Exact)
    } else if (contains_chars(identity, "melobuds n50")) {
        result(DeviceFamily::Earbuds, "qcy-melobuds-n50", VisualConfidence::Exact)
    } else if (contains_chars(identity, "melobuds n65")) {
        result(DeviceFamily::Earbuds, "qcy-melobuds-n65", VisualConfidence::Exact)
    } else if (contains_chars(identity, "melobuds neo")) {
        result(DeviceFamily::Earbuds, "qcy-melobuds-neo", VisualConfidence::Exact)
    } else if (contains_chars(identity, "melobuds anc")) {
        result(DeviceFamily::Earbuds, "qcy-melobuds-anc", VisualConfidence::Exact)
    } else if (contains_chars(identity, "melobuds pro")) {
        result(DeviceFamily::Earbuds, "qcy-melobuds-pro", VisualConfidence::Exact)
    } else if (contains_chars(identity, "t13 anc 2")) {
        result(DeviceFamily::Earbuds, "qcy-t13-anc-2", VisualConfidence::Exact)
    } else {
        qcy_series(identity)
    }
}

fn qcy_classification(identity: &Vec<char>) -> (r: DeviceClassification)
    ensures
        (r.family, r.visual.key@, r.visual.confidence) == qcy_classification_of(identity@),
{
    if (contains_chars(identity, "qcy sp7") || contains_chars(identity, "qcy speaker")) {
        result(DeviceFamily::Speaker, "speaker-generic", VisualConfidence::Category)
    } else if (contains_chars(identity, "qcy watch") || contains_chars(identity, "watch gs2") || contains_chars(identity, "watch gt2") || contains_chars(identity, "urban gs") || contains_chars(identity, "active gt")) {
        result(DeviceFamily::GenericBle, "bluetooth", VisualConfidence::Fallback)
    } else if (contains_chars(identity, "heroad") || contains_chars(identity, "vt200") || contains_chars(identity, "v200") || contains_chars(identity, "gt2 tri-mode")) {
        result(DeviceFamily::Headset, "qcy-heroad", VisualConfidence::Exact)
    } else {
        qcy_model(identity)
    }
}

fn apple_match(identity: &Vec<char>, icon: &Vec<char>, class: Option<u32>, appearance: Option<u16>, hint: DeviceFamily) -> (r: Option<DeviceClassification>)
    ensures
        match r {
            Some(c) => apple_rule(identity@, icon@, class, appearance, hint) == Some((c.family, c.visual.key@, c.visual.confidence)),
            None => apple_rule(identity@, icon@, class, appearance, hint) is None,
        },
{
    if (contains_chars(identity, "airpods pro 3") || contains_chars(identity, "airpods pro (3rd")) {
        Some(result(DeviceFamily::AirPods, "airpods-pro-3", VisualConfidence::Exact))
    } else if (contains_chars(identity, "airpods pro (1st") || contains_chars(identity, "airpods pro 1")) {
        Some(result(DeviceFamily::AirPods, "airpods-pro-1", VisualConfidence::Exact))
    } else if (contains_chars(identity, "airpods pro")) {
        Some(result(DeviceFamily::AirPods, "airpods-pro-2", VisualConfidence::Exact))
    } else if (contains_chars(identity, "airpods max 2")) {
        Some(result(DeviceFamily::Headset, "airpods-max-2", VisualConfidence::Exact))
    } else if (contains_chars(identity, "airpods max")) {
        Some(result(DeviceFamily::Headset, "airpods-max", VisualConfidence::Exact))
    } else if (contains_chars(identity, "airpods 4") || contains_chars(identity, "airpods (4th")) {
        Some(result(DeviceFamily::AirPods, "airpods-4", VisualConfidence::Exact))
    } else if (contains_chars(identity, "airpods 3") || contains_chars(identity, "airpods (3rd")) {
        Some(result(DeviceFamily::AirPods, "airpods-3", VisualConfidence::Exact))
    } else if (contains_chars(identity, "airpods 2") || contains_chars(identity, "airpods (2nd")) {
        Some(result(DeviceFamily::AirPods, "airpods-2", VisualConfidence::Exact))
    } else if (contains_chars(identity, "airpods 1") || contains_chars(identity, "airpods (1st")) {
        Some(result(DeviceFamily::AirPods, "airpods-1", VisualConfidence::Exact))
    } else if (contains_chars(identity, "airpods") || hint == DeviceFamily::AirPods) {
        Some(result(DeviceFamily::AirPods, "airpods-generic", VisualConfidence::Category))
    } else {
        None
    }
}

fn qcy_match(identity: &Vec<char>, icon: &Vec<char>, class: Option<u32>, appearance: Option<u16>, hint: DeviceFamily) -> (r: Option<DeviceClassification>)
    ensures
        match r {
            Some(c) => qcy_rule(identity@, icon@, class, appearance, hint) == Some((c.family, c.visual.key@, c.visual.confidence)),
            None => qcy_rule(identity@, icon@, class, appearance, hint) is None,
        },
{
    if (contains_chars(identity, "qcy")) {
        Some(qcy_classification(identity))
    } else {
        None
    }
}

fn brand_match(identity: &Vec<char>, icon: &Vec<char>, class: Option<u32>, appearance: Option<u16>, hint: DeviceFamily) -> (r: Option<DeviceClassification>)
    ensures
        match r {
            Some(c) => brand_rule(identity@, icon@, class, appearance, hint) == Some((c.family, c.visual.key@, c.visual.confidence)),
            None => brand_rule(identity@, icon@, class, appearance, hint) is None,
        },
{
    if (contains_chars(identity, "xiaomi buds")) {
        if (contains_chars(identity, "buds 6")) {
            Some(result(DeviceFamily::Earbuds, "xiaomi-buds-6", VisualConfidence::Exact))
        } else {
            Some(result(DeviceFamily::Earbuds, "xiaomi-buds-5", VisualConfidence::Exact))
        }
    } else if (contains_chars(identity, "redmi buds")) {
        if (contains_chars(identity, "buds 8")) {
            Some(result(DeviceFamily::Earbuds, "redmi-buds-8", VisualConfidence::Exact))
        } else if (contains_chars(identity, "buds 6")) {
            Some(result(DeviceFamily::Earbuds, "redmi-buds-6", VisualConfidence::Exact))
        } else if (contains_chars(identity, "buds 5")) {
            Some(result(DeviceFamily::Earbuds, "redmi-buds-5", VisualConfidence::Exact))
        } else if (contains_chars(identity, "buds 4")) {
            Some(result(DeviceFamily::Earbuds, "redmi-buds-4", VisualConfidence::Exact))
        } else if (contains_chars(identity, "buds 3")) {
            Some(result(DeviceFamily::Earbuds, "redmi-buds-3", VisualConfidence::Exact))
        } else {
            Some(result(DeviceFamily::Earbuds, "redmi-buds", VisualConfidence::Exact))
        }
    } else if (contains_chars(identity, "soundcore") || contains_chars(identity, "liberty")) {
        if (contains_chars(identity, "sport x20") || contains_chars(identity, "sport-x20")) {
            Some(result(DeviceFamily::Earbuds, "soundcore-sport-x20", VisualConfidence::Exact))
        } else if (contains_chars(identity, "aerofit")) {
            Some(result(DeviceFamily::Earbuds, "soundcore-aerofit", VisualConfidence::Exact))
        } else if (contains_chars(identity, "space a40")) {
            Some(result(DeviceFamily::Earbuds, "soundcore-space-a40", VisualConfidence::Exact))
        } else if (contains_chars(identity, "sleep")) {
            Some(result(DeviceFamily::Earbuds, "soundcore-sleep", VisualConfidence::Exact))
        } else if (contains_chars(identity, "liberty")) {
            Some(result(DeviceFamily::Earbuds, "soundcore-liberty", VisualConfidence::Exact))
        } else if (contains_chars(identity, "p20") || contains_chars(identity, "p25") || contains_chars(identity, "p30") || contains_chars(identity, "p40") || contains_chars(identity, "p41")) {
            Some(result(DeviceFamily::Earbuds, "soundcore-p-series", VisualConfidence::Exact))
        } else {
            Some(result(DeviceFamily::Earbuds, "soundcore-earbuds", VisualConfidence::Exact))
        }
    } else if (contains_chars(identity, "galaxy buds")) {
        if (contains_chars(identity, "buds4")) {
            Some(result(DeviceFamily::Earbuds, "galaxy-buds4", VisualConfidence::Exact))
        } else if (contains_chars(identity, "buds3")) {
            Some(result(DeviceFamily::Earbuds, "galaxy-buds3", VisualConfidence::Exact))
        } else if (contains_chars(identity, "live")) {
            Some(result(DeviceFamily::Earbuds, "galaxy-buds-live", VisualConfidence::Exact))
        } else if (contains_chars(identity, "fe")) {
            Some(result(DeviceFamily::Earbuds, "galaxy-buds-fe", VisualConfidence::Exact))
        } else if (contains_chars(identity, "buds2")) {
            Some(result(DeviceFamily::Earbuds, "galaxy-buds2", VisualConfidence::Exact))
        } else {
            Some(result(DeviceFamily::Earbuds, "galaxy-buds", VisualConfidence::Exact))
        }
    } else if (contains_chars(identity, "linkbuds open") || contains_chars(identity, "wf-l910")) {
        Some(result(DeviceFamily::Earbuds, "sony-linkbuds-open", VisualConfidence::Exact))
    } else if (contains_chars(identity, "linkbuds fit") || contains_chars(identity, "wf-ls910")) {
        Some(result(DeviceFamily::Earbuds, "sony-linkbuds-fit", VisualConfidence::Exact))
    } else if (contains_chars(identity, "wf-1000xm5")) {
        Some(result(DeviceFamily::Earbuds, "sony-wf-1000xm5", VisualConfidence::Exact))
    } else if (contains_chars(identity, "wf-1000xm4")) {
        Some(result(DeviceFamily::Earbuds, "sony-wf-1000xm4", VisualConfidence::Exact))
    } else if (contains_chars(identity, "sony") && contains_chars(identity, "wf-")) {
        Some(result(DeviceFamily::Earbuds, "sony-wf", VisualConfidence::Category))
    } else {
        None
    }
}

fn second_brand_match(identity: &Vec<char>, icon: &Vec<char>, class: Option<u32>, appearance: Option<u16>, hint: DeviceFamily) -> (r: Option<DeviceClassification>)
    ensures
        match r {
            Some(c) => second_brand_rule(identity@, icon@, class, appearance, hint) == Some((c.family, c.visual.key@, c.visual.confidence)),
            None => second_brand_rule(identity@, icon@, class, appearance, hint) is None,
        },
{
    if (contains_chars(identity, "jbl")) {
        if (contains_chars(identity, "jbl free")) {
            Some(result(DeviceFamily::Earbuds, "jbl-free", VisualConfidence::Exact))
        } else if (contains_chars(identity, "live buds") || contains_chars(identity, "tune buds")) {
            if (contains_chars(identity, "live buds")) {
                Some(result(DeviceFamily::Earbuds, "jbl-live-buds", VisualConfidence::Exact))
            } else {
                Some(result(DeviceFamily::Earbuds, "jbl-tune-buds", VisualConfidence::Exact))
            }
        } else if (contains_chars(identity, "tour pro")) {
            Some(result(DeviceFamily::Earbuds, "jbl-tour-pro", VisualConfidence::Exact))
        } else if (contains_chars(identity, "live beam")) {
            Some(result(DeviceFamily::Earbuds, "jbl-live-beam", VisualConfidence::Exact))
        } else if (contains_chars(identity, "tune beam")) {
            Some(result(DeviceFamily::Earbuds, "jbl-tune-beam", VisualConfidence::Exact))
        } else if (contains_chars(identity, "charge") || contains_chars(identity, "speaker")) {
            Some(result(DeviceFamily::Speaker, "speaker-generic", VisualConfidence::Exact))
        } else {
            Some(result(DeviceFamily::Earbuds, "jbl-earbuds", VisualConfidence::Exact))
        }
    } else if (contains_chars(identity, "pixel buds")) {
        if (contains_chars(identity, "2a")) {
            Some(result(DeviceFamily::Earbuds, "pixel-buds-2a", VisualConfidence::Exact))
        } else if (contains_chars(identity, "pro")) {
            Some(result(DeviceFamily::Earbuds, "pixel-buds-pro", VisualConfidence::Exact))
        } else {
            Some(result(DeviceFamily::Earbuds, "pixel-buds", VisualConfidence::Exact))
        }
    } else if (contains_chars(identity, "nothing ear")) {
        if (contains_chars(identity, "open")) {
            Some(result(DeviceFamily::Earbuds, "nothing-ear-open", VisualConfidence::Exact))
        } else if (contains_chars(identity, "(a)") || contains_chars(identity, "ear a")) {
            Some(result(DeviceFamily::Earbuds, "nothing-ear-a", VisualConfidence::Exact))
        } else if (contains_chars(identity, "nothing ear (1)") || contains_chars(identity, "nothing ear 1")) {
            Some(result(DeviceFamily::Earbuds, "nothing-ear-1", VisualConfidence::Exact))
        } else {
            Some(result(DeviceFamily::Earbuds, "nothing-ear", VisualConfidence::Exact))
        }
    } else if (contains_chars(identity, "oneplus") && contains_chars(identity, "buds")) {
        if (contains_chars(identity, "nord")) {
            Some(result(DeviceFamily::Earbuds, "oneplus-nord-buds", VisualConfidence::Exact))
        } else if (contains_chars(identity, "pro")) {
            Some(result(DeviceFamily::Earbuds, "oneplus-buds-pro", VisualConfidence::Exact))
        } else {
            Some(result(DeviceFamily::Earbuds, "oneplus-buds", VisualConfidence::Exact))
        }
    } else if (contains_chars(identity, "freeclip")) {
        Some(result(DeviceFamily::Earbuds, "huawei-freeclip", VisualConfidence::Exact))
    } else if (contains_chars(identity, "freebuds")) {
        if (contains_chars(identity, "freebuds 6")) {
            Some(result(DeviceFamily::Earbuds, "huawei-freebuds-6", VisualConfidence::Exact))
        } else if (contains_chars(identity, "pro")) {
            Some(result(DeviceFamily::Earbuds, "huawei-freebuds-pro", VisualConfidence::Exact))
        } else {
            Some(result(DeviceFamily::Earbuds, "huawei-freebuds", VisualConfidence::Exact))
        }
    } else if (contains_chars(identity, "beats fit pro")) {
        Some(result(DeviceFamily::Earbuds, "beats-fit-pro", VisualConfidence::Exact))
    } else if (contains_chars(identity, "beats studio buds")) {
        if (contains_chars(identity, "plus") || contains_chars(identity, "buds +")) {
            Some(result(DeviceFamily::Earbuds, "beats-studio-buds-plus", VisualConfidence::Exact))
        } else {
            Some(result(DeviceFamily::Earbuds, "beats-studio-buds", VisualConfidence::Exact))
        }
    } else if (contains_chars(identity, "beats") && (contains_chars(identity, "buds") || contains_chars(identity, "fit"))) {
        Some(result(DeviceFamily::Earbuds, "beats-earbuds", VisualConfidence::Category))
    } else {
        None
    }
}

fn category_match(identity: &Vec<char>, icon: &Vec<char>, class: Option<u32>, appearance: Option<u16>, hint: DeviceFamily) -> (r: Option<DeviceClassification>)
    ensures
        match r {
            Some(c) => category_rule(identity@, icon@, class, appearance, hint) == Some((c.family, c.visual.key@, c.visual.confidence)),
            None => category_rule(identity@, icon@, class, appearance, hint) is None,
        },
{
    if (contains_chars(identity, "buds") || contains_chars(identity, "earbud") || contains_chars(identity, "tws")) {
        Some(result(DeviceFamily::Earbuds, "earbuds-generic", VisualConfidence::Category))
    } else if (contains_chars(identity, "jbl charge") || contains_chars(identity, "speaker") || contains_chars(icon, "audio-speakers")) {
        Some(result(DeviceFamily::Speaker, "speaker-generic", VisualConfidence::Category))
    } else if (contains_chars(identity, "mx master") || contains_chars(identity, "mouse") || contains_chars(icon, "mouse") || appearance == Some(0x03c2u16)) {
        Some(result(DeviceFamily::Mouse, "mouse-generic", VisualConfidence::Category))
    } else if (contains_chars(identity, "keychron") || contains_chars(identity, "keyboard") || contains_chars(icon, "keyboard") || appearance == Some(0x03c1u16)) {
        Some(result(DeviceFamily::Keyboard, "keyboard-generic", VisualConfidence::Category))
    } else if (contains_chars(identity, "controller") || contains_chars(identity, "gamepad") || contains_chars(identity, "joystick") || appearance == Some(0x03c4u16) || appearance == Some(0x03c5u16)) {
        Some(result(DeviceFamily::GameController, "game-controller-generic", VisualConfidence::Category))
    } else if (contains_chars(identity, "pencil") || contains_chars(identity, "stylus") || contains_chars(identity, "digital pen") || appearance == Some(0x03c6u16) || appearance == Some(0x03c8u16)) {
        Some(result(DeviceFamily::Stylus, "stylus-generic", VisualConfidence::Category))
    } else if (contains_chars(identity, "wh-") || contains_chars(identity, "headphone") || contains_chars(identity, "headset") || contains_chars(icon, "headset") || contains_chars(icon, "headphones")) {
        Some(result(DeviceFamily::Headset, "headset-generic", VisualConfidence::Category))
    } else {
        None
    }
}

fn hint_match(identity: &Vec<char>, icon: &Vec<char>, class: Option<u32>, appearance: Option<u16>, hint: DeviceFamily) -> (r: Option<DeviceClassification>)
    ensures
        match r {
            Some(c) => hint_rule(identity@, icon@, class, appearance, hint) == Some((c.family, c.visual.key@, c.visual.confidence)),
            None => hint_rule(identity@, icon@, class, appearance, hint) is None,
        },
{
    if hint == DeviceFamily::Earbuds {
        Some(result(DeviceFamily::Earbuds, "earbuds-generic", VisualConfidence::Category))
    } else if hint == DeviceFamily::Headset {
        Some(result(DeviceFamily::Headset, "headset-generic", VisualConfidence::Category))
    } else if hint == DeviceFamily::Speaker {
        Some(result(DeviceFamily::Speaker, "speaker-generic", VisualConfidence::Category))
    } else if hint == DeviceFamily::Mouse {
        Some(result(DeviceFamily::Mouse, "mouse-generic", VisualConfidence::Category))
    } else if hint == DeviceFamily::Keyboard {
        Some(result(DeviceFamily::Keyboard, "keyboard-generic", VisualConfidence::Category))
    } else if hint == DeviceFamily::GameController {
        Some(result(DeviceFamily::GameController, "game-controller-generic", VisualConfidence::Category))
    } else if hint == DeviceFamily::Stylus {
        Some(result(DeviceFamily::Stylus, "stylus-generic", VisualConfidence::Category))
    } else if hint == DeviceFamily::GenericBle {
        Some(result(DeviceFamily::GenericBle, "bluetooth", VisualConfidence::Fallback))
    } else if hint == DeviceFamily::AirPods {
        Some(result(DeviceFamily::AirPods, "airpods-generic", VisualConfidence::Category))
    } else if match class { Some(v) => (v >> 8u32) & 0x1fu32 == 0x04u32, None => false } {
        Some(result(DeviceFamily::Headset, "headset-generic", VisualConfidence::Category))
    } else {
        None
    }
}

fn decide(identity: &Vec<char>, icon: &Vec<char>, class: Option<u32>, appearance: Option<u16>, hint: DeviceFamily) -> (r: DeviceClassification)
    ensures
        (r.family, r.visual.key@, r.visual.confidence) == classification_of(identity@, icon@, class, appearance, hint),
{
    match apple_match(identity, icon, class, appearance, hint) {
        Some(c) => c,
        None => match qcy_match(identity, icon, class, appearance, hint) {
            Some(c) => c,
            None => match brand_match(identity, icon, class, appearance, hint) {
                Some(c) => c,
                None => match second_brand_match(identity, icon, class, appearance, hint) {
                    Some(c) => c,
                    None => match category_match(identity, icon, class, appearance, hint) {
                        Some(c) => c,
                        None => match hint_match(identity, icon, class, appearance, hint) {
                            Some(c) => c,
                            None => result(DeviceFamily::Unknown, "bluetooth", VisualConfidence::Fallback),
                        },
                    },
                },
            },
        },
    }
}

/// Classifies one Bluetooth device without inferring battery component values.
pub fn classify_device(input: ClassificationInput) -> (r: DeviceClassification)
    ensures
        (r.family, r.visual.key@, r.visual.confidence) == classification_of(
            identity_of(input),
            icon_of(input),
            input.class,
            input.appearance,
            input.family_hint,
        ),
{
    let mut identity: Vec<char> = Vec::new();
    let ghost mut joined: Seq<char> = Seq::empty();
    match input.manufacturer {
        Some(m) => {
            push_lower(&mut identity, m);
            push_lower(&mut identity, " ");
        },
        None => {},
    }
    match input.model {
        Some(m) => {
            push_lower(&mut identity, m);
            push_lower(&mut identity, " ");
        },
        None => {},
    }
    push_lower(&mut identity, input.name);
    assert(identity@ =~= identity_of(input)) by {
        assert(seq_ascii_lower(part(input.manufacturer) + part(input.model) + input.name@)
            =~= seq_ascii_lower(part(input.manufacturer)) + seq_ascii_lower(part(input.model))
            + seq_ascii_lower(input.name@));
        match input.manufacturer {
            Some(m) => {
                assert(seq_ascii_lower(m@ + " "@) =~= seq_ascii_lower(m@) + seq_ascii_lower(" "@));
            },
            None => {},
        }
        match input.model {
            Some(m) => {
                assert(seq_ascii_lower(m@ + " "@) =~= seq_ascii_lower(m@) + seq_ascii_lower(" "@));
            },
            None => {},
        }
    }
    let mut icon: Vec<char> = Vec::new();
    match input.icon {
        Some(x) => push_lower(&mut icon, x),
        None => {},
    }
    assert(icon@ =~= icon_of(input));
    decide(&identity, &icon, input.class, input.appearance, input.family_hint)
}


proof fn lemma_contains_prefix(hay: Seq<char>, needle: Seq<char>, n: int)
    requires
        seq_contains(hay, needle),
        0 <= n <= needle.len(),
    ensures
        seq_contains(hay, needle.take(n)),
{
    let i = choose|i: int| crate::text::occurs_at(hay, needle, i);
    assert(hay.subrange(i, i + n) =~= hay.subrange(i, i + needle.len()).take(n));
    assert(crate::text::occurs_at(hay, needle.take(n), i));
}

/// A device whose identity names "airpods max" (and no AirPods Pro) is an
/// over-ear headset with the exact AirPods Max artwork, whatever its icon,
/// class, appearance and family hint.
pub proof fn lemma_airpods_max_is_headset(
    identity: Seq<char>,
    icon: Seq<char>,
    class: Option<u32>,
    appearance: Option<u16>,
    hint: DeviceFamily,
)
    requires
        seq_contains(identity, "airpods max"@),
        !seq_contains(identity, "airpods pro"@),
    ensures
        classification_of(identity, icon, class, appearance, hint).0 == DeviceFamily::Headset,
        classification_of(identity, icon, class, appearance, hint).2 == VisualConfidence::Exact,
        classification_of(identity, icon, class, appearance, hint).1 == if seq_contains(
            identity,
            "airpods max 2"@,
        ) {
            "airpods-max-2"@
        } else {
            "airpods-max"@
        },
{
    reveal_strlit("airpods pro");
    reveal_strlit("airpods pro 3");
    reveal_strlit("airpods pro (3rd");
    reveal_strlit("airpods pro (1st");
    reveal_strlit("airpods pro 1");
    let names = seq!["airpods pro 3"@, "airpods pro (3rd"@, "airpods pro (1st"@, "airpods pro 1"@];
    assert forall|k: int| 0 <= k < 4 implies !seq_contains(identity, #[trigger] names[k]) by {
        assert(names[k].take(11) =~= "airpods pro"@);
        if seq_contains(identity, names[k]) {
            lemma_contains_prefix(identity, names[k], 11);
        }
    }
    assert(!seq_contains(identity, names[0]));
    assert(!seq_contains(identity, names[1]));
    assert(!seq_contains(identity, names[2]));
    assert(!seq_contains(identity, names[3]));
}

/// A device whose identity names "airpods pro" is a pair of AirPods with
/// exact AirPods Pro artwork, whatever its icon, class, appearance and hint.
pub proof fn lemma_airpods_pro_are_airpods(
    identity: Seq<char>,
    icon: Seq<char>,
    class: Option<u32>,
    appearance: Option<u16>,
    hint: DeviceFamily,
)
    requires
        seq_contains(identity, "airpods pro"@),
    ensures
        classification_of(identity, icon, class, appearance, hint).0 == DeviceFamily::AirPods,
        classification_of(identity, icon, class, appearance, hint).2 == VisualConfidence::Exact,
{
}
} // verus!
