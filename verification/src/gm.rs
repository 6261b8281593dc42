//! The fixed General MIDI name table.
//!
//! General MIDI names its 128 programs; configurations may route by those
//! names instead of raw program numbers.  The table is split into four
//! blocks of thirty-two programs to keep each function small.

use vstd::prelude::*;

verus! {

/// Name table block, programs 0 to 31: pianos, chromatic percussion, organs and guitars.
pub open spec fn gm_program_low(name: Seq<char>) -> Option<u8> {
    if name == "Acoustic Grand Piano"@ {
        Some(0u8)
    } else if name == "Bright Acoustic Piano"@ {
        Some(1u8)
    } else if name == "Electric Grand Piano"@ {
        Some(2u8)
    } else if name == "Honky-tonk Piano"@ {
        Some(3u8)
    } else if name == "Electric Piano 1"@ {
        Some(4u8)
    } else if name == "Electric Piano 2"@ {
        Some(5u8)
    } else if name == "Harpsichord"@ {
        Some(6u8)
    } else if name == "Clavi"@ {
        Some(7u8)
    } else if name == "Celesta"@ {
        Some(8u8)
    } else if name == "Glockenspiel"@ {
        Some(9u8)
    } else if name == "Music Box"@ {
        Some(10u8)
    } else if name == "Vibraphone"@ {
        Some(11u8)
    } else if name == "Marimba"@ {
        Some(12u8)
    } else if name == "Xylophone"@ {
        Some(13u8)
    } else if name == "Tubular Bells"@ {
        Some(14u8)
    } else if name == "Dulcimer"@ {
        Some(15u8)
    } else if name == "Drawbar Organ"@ {
        Some(16u8)
    } else if name == "Percussive Organ"@ {
        Some(17u8)
    } else if name == "Rock Organ"@ {
        Some(18u8)
    } else if name == "Church Organ"@ {
        Some(19u8)
    } else if name == "Reed Organ"@ {
        Some(20u8)
    } else if name == "Accordion"@ {
        Some(21u8)
    } else if name == "Harmonica"@ {
        Some(22u8)
    } else if name == "Tango Accordion"@ {
        Some(23u8)
    } else if name == "Acoustic Guitar (nylon)"@ {
        Some(24u8)
    } else if name == "Acoustic Guitar (steel)"@ {
        Some(25u8)
    } else if name == "Electric Guitar (jazz)"@ {
        Some(26u8)
    } else if name == "Electric Guitar (clean)"@ {
        Some(27u8)
    } else if name == "Electric Guitar (muted)"@ {
        Some(28u8)
    } else if name == "Overdriven Guitar"@ {
        Some(29u8)
    } else if name == "Distortion Guitar"@ {
        Some(30u8)
    } else if name == "Guitar Harmonics"@ {
        Some(31u8)
    } else {
        None
    }
}

/// Name table block, programs 32 to 63: basses, strings, ensembles and brasses.
pub open spec fn gm_program_mid_low(name: Seq<char>) -> Option<u8> {
    if name == "Acoustic Bass"@ {
        Some(32u8)
    } else if name == "Electric Bass (finger)"@ {
        Some(33u8)
    } else if name == "Electric Bass (pick)"@ {
        Some(34u8)
    } else if name == "Fretless Bass"@ {
        Some(35u8)
    } else if name == "Slap Bass 1"@ {
        Some(36u8)
    } else if name == "Slap Bass 2"@ {
        Some(37u8)
    } else if name == "Synth Bass 1"@ {
        Some(38u8)
    } else if name == "Synth Bass 2"@ {
        Some(39u8)
    } else if name == "Violin"@ {
        Some(40u8)
    } else if name == "Viola"@ {
        Some(41u8)
    } else if name == "Cello"@ {
        Some(42u8)
    } else if name == "Contrabass"@ {
        Some(43u8)
    } else if name == "Tremolo Strings"@ {
        Some(44u8)
    } else if name == "Pizzicato Strings"@ {
        Some(45u8)
    } else if name == "Orchestral Harp"@ {
        Some(46u8)
    } else if name == "Timpani"@ {
        Some(47u8)
    } else if name == "String Ensemble 1"@ {
        Some(48u8)
    } else if name == "String Ensemble 2"@ {
        Some(49u8)
    } else if name == "Synth Strings 1"@ {
        Some(50u8)
    } else if name == "Synth Strings 2"@ {
        Some(51u8)
    } else if name == "Choir Aahs"@ {
        Some(52u8)
    } else if name == "Voice Oohs"@ {
        Some(53u8)
    } else if name == "Synth Voice"@ {
        Some(54u8)
    } else if name == "Orchestra Hit"@ {
        Some(55u8)
    } else if name == "Trumpet"@ {
        Some(56u8)
    } else if name == "Trombone"@ {
        Some(57u8)
    } else if name == "Tuba"@ {
        Some(58u8)
    } else if name == "Muted Trumpet"@ {
        Some(59u8)
    } else if name == "French Horn"@ {
        Some(60u8)
    } else if name == "Brass Section"@ {
        Some(61u8)
    } else if name == "Synth Brass 1"@ {
        Some(62u8)
    } else if name == "Synth Brass 2"@ {
        Some(63u8)
    } else {
        None
    }
}

/// Name table block, programs 64 to 95: reeds, pipes, synth leads and synth pads.
pub open spec fn gm_program_mid_high(name: Seq<char>) -> Option<u8> {
    if name == "Soprano Sax"@ {
        Some(64u8)
    } else if name == "Alto Sax"@ {
        Some(65u8)
    } else if name == "Tenor Sax"@ {
        Some(66u8)
    } else if name == "Baritone Sax"@ {
        Some(67u8)
    } else if name == "Oboe"@ {
        Some(68u8)
    } else if name == "English Horn"@ {
        Some(69u8)
    } else if name == "Bassoon"@ {
        Some(70u8)
    } else if name == "Clarinet"@ {
        Some(71u8)
    } else if name == "Piccolo"@ {
        Some(72u8)
    } else if name == "Flute"@ {
        Some(73u8)
    } else if name == "Recorder"@ {
        Some(74u8)
    } else if name == "Pan Flute"@ {
        Some(75u8)
    } else if name == "Blown Bottle"@ {
        Some(76u8)
    } else if name == "Shakuhachi"@ {
        Some(77u8)
    } else if name == "Whistle"@ {
        Some(78u8)
    } else if name == "Ocarina"@ {
        Some(79u8)
    } else if name == "Lead 1 (square)"@ {
        Some(80u8)
    } else if name == "Lead 2 (sawtooth)"@ {
        Some(81u8)
    } else if name == "Lead 3 (calliope)"@ {
        Some(82u8)
    } else if name == "Lead 4 (chiff)"@ {
        Some(83u8)
    } else if name == "Lead 5 (charang)"@ {
        Some(84u8)
    } else if name == "Lead 6 (voice)"@ {
        Some(85u8)
    } else if name == "Lead 7 (fifths)"@ {
        Some(86u8)
    } else if name == "Lead 8 (bass + lead)"@ {
        Some(87u8)
    } else if name == "Pad 1 (new age)"@ {
        Some(88u8)
    } else if name == "Pad 2 (warm)"@ {
        Some(89u8)
    } else if name == "Pad 3 (polysynth)"@ {
        Some(90u8)
    } else if name == "Pad 4 (choir)"@ {
        Some(91u8)
    } else if name == "Pad 5 (bowed)"@ {
        Some(92u8)
    } else if name == "Pad 6 (metallic)"@ {
        Some(93u8)
    } else if name == "Pad 7 (halo)"@ {
        Some(94u8)
    } else if name == "Pad 8 (sweep)"@ {
        Some(95u8)
    } else {
        None
    }
}

/// Name table block, programs 96 to 127: synth effects, ethnic, percussive and sound effects.
pub open spec fn gm_program_high(name: Seq<char>) -> Option<u8> {
    if name == "FX 1 (rain)"@ {
        Some(96u8)
    } else if name == "FX 2 (soundtrack)"@ {
        Some(97u8)
    } else if name == "FX 3 (crystal)"@ {
        Some(98u8)
    } else if name == "FX 4 (atmosphere)"@ {
        Some(99u8)
    } else if name == "FX 5 (brightness)"@ {
        Some(100u8)
    } else if name == "FX 6 (goblins)"@ {
        Some(101u8)
    } else if name == "FX 7 (echoes)"@ {
        Some(102u8)
    } else if name == "FX 8 (sci-fi)"@ {
        Some(103u8)
    } else if name == "Sitar"@ {
        Some(104u8)
    } else if name == "Banjo"@ {
        Some(105u8)
    } else if name == "Shamisen"@ {
        Some(106u8)
    } else if name == "Koto"@ {
        Some(107u8)
    } else if name == "Kalimba"@ {
        Some(108u8)
    } else if name == "Bag pipe"@ {
        Some(109u8)
    } else if name == "Fiddle"@ {
        Some(110u8)
    } else if name == "Shanai"@ {
        Some(111u8)
    } else if name == "Tinkle Bell"@ {
        Some(112u8)
    } else if name == "Agogo"@ {
        Some(113u8)
    } else if name == "Steel Drums"@ {
        Some(114u8)
    } else if name == "Woodblock"@ {
        Some(115u8)
    } else if name == "Taiko Drum"@ {
        Some(116u8)
    } else if name == "Melodic Tom"@ {
        Some(117u8)
    } else if name == "Synth Drum"@ {
        Some(118u8)
    } else if name == "Reverse Cymbal"@ {
        Some(119u8)
    } else if name == "Guitar Fret Noise"@ {
        Some(120u8)
    } else if name == "Breath Noise"@ {
        Some(121u8)
    } else if name == "Seashore"@ {
        Some(122u8)
    } else if name == "Bird Tweet"@ {
        Some(123u8)
    } else if name == "Telephone Ring"@ {
        Some(124u8)
    } else if name == "Helicopter"@ {
        Some(125u8)
    } else if name == "Applause"@ {
        Some(126u8)
    } else if name == "Gunshot"@ {
        Some(127u8)
    } else {
        None
    }
}

/// Looks a name up in the block of programs 0 to 31.
fn lookup_low(name: &String) -> (r: Option<u8>)
    ensures
        r == gm_program_low(name@),
{
    if name.eq(&"Acoustic Grand Piano".to_owned()) {
        return Some(0);
    }
    if name.eq(&"Bright Acoustic Piano".to_owned()) {
        return Some(1);
    }
    if name.eq(&"Electric Grand Piano".to_owned()) {
        return Some(2);
    }
    if name.eq(&"Honky-tonk Piano".to_owned()) {
        return Some(3);
    }
    if name.eq(&"Electric Piano 1".to_owned()) {
        return Some(4);
    }
    if name.eq(&"Electric Piano 2".to_owned()) {
        return Some(5);
    }
    if name.eq(&"Harpsichord".to_owned()) {
        return Some(6);
    }
    if name.eq(&"Clavi".to_owned()) {
        return Some(7);
    }
    if name.eq(&"Celesta".to_owned()) {
        return Some(8);
    }
    if name.eq(&"Glockenspiel".to_owned()) {
        return Some(9);
    }
    if name.eq(&"Music Box".to_owned()) {
        return Some(10);
    }
    if name.eq(&"Vibraphone".to_owned()) {
        return Some(11);
    }
    if name.eq(&"Marimba".to_owned()) {
        return Some(12);
    }
    if name.eq(&"Xylophone".to_owned()) {
        return Some(13);
    }
    if name.eq(&"Tubular Bells".to_owned()) {
        return Some(14);
    }
    if name.eq(&"Dulcimer".to_owned()) {
        return Some(15);
    }
    if name.eq(&"Drawbar Organ".to_owned()) {
        return Some(16);
    }
    if name.eq(&"Percussive Organ".to_owned()) {
        return Some(17);
    }
    if name.eq(&"Rock Organ".to_owned()) {
        return Some(18);
    }
    if name.eq(&"Church Organ".to_owned()) {
        return Some(19);
    }
    if name.eq(&"Reed Organ".to_owned()) {
        return Some(20);
    }
    if name.eq(&"Accordion".to_owned()) {
        return Some(21);
    }
    if name.eq(&"Harmonica".to_owned()) {
        return Some(22);
    }
    if name.eq(&"Tango Accordion".to_owned()) {
        return Some(23);
    }
    if name.eq(&"Acoustic Guitar (nylon)".to_owned()) {
        return Some(24);
    }
    if name.eq(&"Acoustic Guitar (steel)".to_owned()) {
        return Some(25);
    }
    if name.eq(&"Electric Guitar (jazz)".to_owned()) {
        return Some(26);
    }
    if name.eq(&"Electric Guitar (clean)".to_owned()) {
        return Some(27);
    }
    if name.eq(&"Electric Guitar (muted)".to_owned()) {
        return Some(28);
    }
    if name.eq(&"Overdriven Guitar".to_owned()) {
        return Some(29);
    }
    if name.eq(&"Distortion Guitar".to_owned()) {
        return Some(30);
    }
    if name.eq(&"Guitar Harmonics".to_owned()) {
        return Some(31);
    }
    None
}

/// Looks a name up in the block of programs 32 to 63.
fn lookup_mid_low(name: &String) -> (r: Option<u8>)
    ensures
        r == gm_program_mid_low(name@),
{
    if name.eq(&"Acoustic Bass".to_owned()) {
        return Some(32);
    }
    if name.eq(&"Electric Bass (finger)".to_owned()) {
        return Some(33);
    }
    if name.eq(&"Electric Bass (pick)".to_owned()) {
        return Some(34);
    }
    if name.eq(&"Fretless Bass".to_owned()) {
        return Some(35);
    }
    if name.eq(&"Slap Bass 1".to_owned()) {
        return Some(36);
    }
    if name.eq(&"Slap Bass 2".to_owned()) {
        return Some(37);
    }
    if name.eq(&"Synth Bass 1".to_owned()) {
        return Some(38);
    }
    if name.eq(&"Synth Bass 2".to_owned()) {
        return Some(39);
    }
    if name.eq(&"Violin".to_owned()) {
        return Some(40);
    }
    if name.eq(&"Viola".to_owned()) {
        return Some(41);
    }
    if name.eq(&"Cello".to_owned()) {
        return Some(42);
    }
    if name.eq(&"Contrabass".to_owned()) {
        return Some(43);
    }
    if name.eq(&"Tremolo Strings".to_owned()) {
        return Some(44);
    }
    if name.eq(&"Pizzicato Strings".to_owned()) {
        return Some(45);
    }
    if name.eq(&"Orchestral Harp".to_owned()) {
        return Some(46);
    }
    if name.eq(&"Timpani".to_owned()) {
        return Some(47);
    }
    if name.eq(&"String Ensemble 1".to_owned()) {
        return Some(48);
    }
    if name.eq(&"String Ensemble 2".to_owned()) {
        return Some(49);
    }
    if name.eq(&"Synth Strings 1".to_owned()) {
        return Some(50);
    }
    if name.eq(&"Synth Strings 2".to_owned()) {
        return Some(51);
    }
    if name.eq(&"Choir Aahs".to_owned()) {
        return Some(52);
    }
    if name.eq(&"Voice Oohs".to_owned()) {
        return Some(53);
    }
    if name.eq(&"Synth Voice".to_owned()) {
        return Some(54);
    }
    if name.eq(&"Orchestra Hit".to_owned()) {
        return Some(55);
    }
    if name.eq(&"Trumpet".to_owned()) {
        return Some(56);
    }
    if name.eq(&"Trombone".to_owned()) {
        return Some(57);
    }
    if name.eq(&"Tuba".to_owned()) {
        return Some(58);
    }
    if name.eq(&"Muted Trumpet".to_owned()) {
        return Some(59);
    }
    if name.eq(&"French Horn".to_owned()) {
        return Some(60);
    }
    if name.eq(&"Brass Section".to_owned()) {
        return Some(61);
    }
    if name.eq(&"Synth Brass 1".to_owned()) {
        return Some(62);
    }
    if name.eq(&"Synth Brass 2".to_owned()) {
        return Some(63);
    }
    None
}

/// Looks a name up in the block of programs 64 to 95.
fn lookup_mid_high(name: &String) -> (r: Option<u8>)
    ensures
        r == gm_program_mid_high(name@),
{
    if name.eq(&"Soprano Sax".to_owned()) {
        return Some(64);
    }
    if name.eq(&"Alto Sax".to_owned()) {
        return Some(65);
    }
    if name.eq(&"Tenor Sax".to_owned()) {
        return Some(66);
    }
    if name.eq(&"Baritone Sax".to_owned()) {
        return Some(67);
    }
    if name.eq(&"Oboe".to_owned()) {
        return Some(68);
    }
    if name.eq(&"English Horn".to_owned()) {
        return Some(69);
    }
    if name.eq(&"Bassoon".to_owned()) {
        return Some(70);
    }
    if name.eq(&"Clarinet".to_owned()) {
        return Some(71);
    }
    if name.eq(&"Piccolo".to_owned()) {
        return Some(72);
    }
    if name.eq(&"Flute".to_owned()) {
        return Some(73);
    }
    if name.eq(&"Recorder".to_owned()) {
        return Some(74);
    }
    if name.eq(&"Pan Flute".to_owned()) {
        return Some(75);
    }
    if name.eq(&"Blown Bottle".to_owned()) {
        return Some(76);
    }
    if name.eq(&"Shakuhachi".to_owned()) {
        return Some(77);
    }
    if name.eq(&"Whistle".to_owned()) {
        return Some(78);
    }
    if name.eq(&"Ocarina".to_owned()) {
        return Some(79);
    }
    if name.eq(&"Lead 1 (square)".to_owned()) {
        return Some(80);
    }
    if name.eq(&"Lead 2 (sawtooth)".to_owned()) {
        return Some(81);
    }
    if name.eq(&"Lead 3 (calliope)".to_owned()) {
        return Some(82);
    }
    if name.eq(&"Lead 4 (chiff)".to_owned()) {
        return Some(83);
    }
    if name.eq(&"Lead 5 (charang)".to_owned()) {
        return Some(84);
    }
    if name.eq(&"Lead 6 (voice)".to_owned()) {
        return Some(85);
    }
    if name.eq(&"Lead 7 (fifths)".to_owned()) {
        return Some(86);
    }
    if name.eq(&"Lead 8 (bass + lead)".to_owned()) {
        return Some(87);
    }
    if name.eq(&"Pad 1 (new age)".to_owned()) {
        return Some(88);
    }
    if name.eq(&"Pad 2 (warm)".to_owned()) {
        return Some(89);
    }
    if name.eq(&"Pad 3 (polysynth)".to_owned()) {
        return Some(90);
    }
    if name.eq(&"Pad 4 (choir)".to_owned()) {
        return Some(91);
    }
    if name.eq(&"Pad 5 (bowed)".to_owned()) {
        return Some(92);
    }
    if name.eq(&"Pad 6 (metallic)".to_owned()) {
        return Some(93);
    }
    if name.eq(&"Pad 7 (halo)".to_owned()) {
        return Some(94);
    }
    if name.eq(&"Pad 8 (sweep)".to_owned()) {
        return Some(95);
    }
    None
}

/// Looks a name up in the block of programs 96 to 127.
fn lookup_high(name: &String) -> (r: Option<u8>)
    ensures
        r == gm_program_high(name@),
{
    if name.eq(&"FX 1 (rain)".to_owned()) {
        return Some(96);
    }
    if name.eq(&"FX 2 (soundtrack)".to_owned()) {
        return Some(97);
    }
    if name.eq(&"FX 3 (crystal)".to_owned()) {
        return Some(98);
    }
    if name.eq(&"FX 4 (atmosphere)".to_owned()) {
        return Some(99);
    }
    if name.eq(&"FX 5 (brightness)".to_owned()) {
        return Some(100);
    }
    if name.eq(&"FX 6 (goblins)".to_owned()) {
        return Some(101);
    }
    if name.eq(&"FX 7 (echoes)".to_owned()) {
        return Some(102);
    }
    if name.eq(&"FX 8 (sci-fi)".to_owned()) {
        return Some(103);
    }
    if name.eq(&"Sitar".to_owned()) {
        return Some(104);
    }
    if name.eq(&"Banjo".to_owned()) {
        return Some(105);
    }
    if name.eq(&"Shamisen".to_owned()) {
        return Some(106);
    }
    if name.eq(&"Koto".to_owned()) {
        return Some(107);
    }
    if name.eq(&"Kalimba".to_owned()) {
        return Some(108);
    }
    if name.eq(&"Bag pipe".to_owned()) {
        return Some(109);
    }
    if name.eq(&"Fiddle".to_owned()) {
        return Some(110);
    }
    if name.eq(&"Shanai".to_owned()) {
        return Some(111);
    }
    if name.eq(&"Tinkle Bell".to_owned()) {
        return Some(112);
    }
    if name.eq(&"Agogo".to_owned()) {
        return Some(113);
    }
    if name.eq(&"Steel Drums".to_owned()) {
        return Some(114);
    }
    if name.eq(&"Woodblock".to_owned()) {
        return Some(115);
    }
    if name.eq(&"Taiko Drum".to_owned()) {
        return Some(116);
    }
    if name.eq(&"Melodic Tom".to_owned()) {
        return Some(117);
    }
    if name.eq(&"Synth Drum".to_owned()) {
        return Some(118);
    }
    if name.eq(&"Reverse Cymbal".to_owned()) {
        return Some(119);
    }
    if name.eq(&"Guitar Fret Noise".to_owned()) {
        return Some(120);
    }
    if name.eq(&"Breath Noise".to_owned()) {
        return Some(121);
    }
    if name.eq(&"Seashore".to_owned()) {
        return Some(122);
    }
    if name.eq(&"Bird Tweet".to_owned()) {
        return Some(123);
    }
    if name.eq(&"Telephone Ring".to_owned()) {
        return Some(124);
    }
    if name.eq(&"Helicopter".to_owned()) {
        return Some(125);
    }
    if name.eq(&"Applause".to_owned()) {
        return Some(126);
    }
    if name.eq(&"Gunshot".to_owned()) {
        return Some(127);
    }
    None
}

/// The whole table as one spec function: the program number of a General
/// MIDI instrument name, or nothing for a name the standard does not know.
pub open spec fn gm_program_of(name: Seq<char>) -> Option<u8> {
    match gm_program_low(name) {
        Some(p) => Some(p),
        None => match gm_program_mid_low(name) {
            Some(p) => Some(p),
            None => match gm_program_mid_high(name) {
                Some(p) => Some(p),
                None => gm_program_high(name),
            },
        },
    }
}

/// Resolves a General MIDI instrument name to its program number.
pub fn program_nr_of(name: &String) -> (r: Option<u8>)
    ensures
        r == gm_program_of(name@),
{
    match lookup_low(name) {
        Some(p) => Some(p),
        None => match lookup_mid_low(name) {
            Some(p) => Some(p),
            None => match lookup_mid_high(name) {
                Some(p) => Some(p),
                None => lookup_high(name),
            },
        },
    }
}

} // verus!
