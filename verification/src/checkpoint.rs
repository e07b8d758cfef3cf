//! What a checkpoint load must leave behind.
//!
//! A loader reports which tensors a module missed, which failed to load and which
//! tensors of the file went unused. The rules here say which tensors belong to which
//! part of a model, and when a report means that a checkpoint fits.

use vstd::prelude::*;

use crate::text::{
    around_number, around_text, begins_with, contains_text, decimal, decimal_text, finishes_with,
    joined, joined_text, occurs_in, views, with_text,
};

verus! {

/// The outcome of loading a checkpoint into a module. A missing tensor is reported with its
/// path in the module and the place where it was sought.
#[derive(Debug, Clone)]
pub struct LoadReport {
    pub missing: Vec<(String, String)>,
    pub errors: Vec<String>,
    pub unused: Vec<String>,
}

/// A part of a checkpoint.
#[derive(Debug, Clone, Copy, PartialEq, Eq, Structural)]
pub enum Subtree {
    /// Everything but the batch counters of normalization layers.
    Learned,
    SpeakerEmbedding,
    LanguageEmbedding,
    GlowEncoder,
    GlowEncoderWithoutDuration,
    GlowDecoder,
    WaveformDecoder,
    FreevcDecoder,
    TacotronInference,
    DelightfulInference,
}

/// A tensor lies under the given prefix.
pub open spec fn under(path: Seq<char>, prefix: Seq<char>) -> bool {
    prefix.is_prefix_of(path)
}

pub open spec fn in_waveform_decoder(path: Seq<char>) -> bool {
    ||| under(path, "conv_pre."@)
    ||| under(path, "ups."@)
    ||| under(path, "resblocks."@)
    ||| under(path, "conv_post."@)
    ||| under(path, "cond_layer."@)
}

pub open spec fn in_glow_encoder(path: Seq<char>) -> bool {
    ||| under(path, "emb."@)
    ||| under(path, "prenet."@)
    ||| under(path, "encoder."@)
    ||| under(path, "proj_m."@)
    ||| under(path, "proj_s."@)
    ||| under(path, "duration_predictor."@)
}

/// What is left of a path below its first `dec.`.
pub open spec fn below_dec(path: Seq<char>) -> Seq<char> {
    path.skip("dec."@.len() as int)
}

impl Subtree {
    /// A tensor belongs to the part.
    pub open spec fn contains(self, path: Seq<char>) -> bool {
        match self {
            Subtree::Learned => !".num_batches_tracked"@.is_suffix_of(path),
            Subtree::SpeakerEmbedding => under(path, "emb_g."@),
            Subtree::LanguageEmbedding => under(path, "emb_l."@),
            Subtree::GlowEncoder => in_glow_encoder(path),
            Subtree::GlowEncoderWithoutDuration => !under(path, "duration_predictor."@)
                && in_glow_encoder(path),
            Subtree::GlowDecoder => under(path, "blocks."@),
            Subtree::WaveformDecoder => in_waveform_decoder(path),
            Subtree::FreevcDecoder => under(path, "dec."@) && (under(below_dec(path), "cond."@)
                || in_waveform_decoder(below_dec(path))),
            Subtree::TacotronInference => !under(path, "coarse_decoder."@) && !under(
                path,
                "decoder_backward."@,
            ) && !under(path, "capacitron_vae_layer."@) && !under(path, "gst_layer."@),
            Subtree::DelightfulInference => under(path, "acoustic_model."@) && !occurs_in(
                ".aligner."@,
                path,
            ) && !occurs_in(".utterance_prosody_encoder."@, path) && !occurs_in(
                ".phoneme_prosody_encoder."@,
                path,
            ) && !occurs_in(".energy_scaler."@, path) && !occurs_in(".padding_mult"@, path),
        }
    }

    /// Whether a tensor belongs to the part.
    pub fn holds(self, path: &str) -> (out: bool)
        ensures
            out == self.contains(path@),
    {
        match self {
            Subtree::Learned => checkpoint_tensor(path),
            Subtree::SpeakerEmbedding => speaker_embedding_tensor(path),
            Subtree::LanguageEmbedding => language_embedding_tensor(path),
            Subtree::GlowEncoder => glow_encoder_tensor(path),
            Subtree::GlowEncoderWithoutDuration => glow_encoder_without_duration_tensor(path),
            Subtree::GlowDecoder => glow_decoder_tensor(path),
            Subtree::WaveformDecoder => waveform_decoder_tensor(path),
            Subtree::FreevcDecoder => freevc_decoder_tensor(path),
            Subtree::TacotronInference => tacotron_inference_tensor(path),
            Subtree::DelightfulInference => delightful_inference_tensor(path),
        }
    }
}

pub fn checkpoint_tensor(path: &str) -> (out: bool)
    ensures
        out == Subtree::Learned.contains(path@),
{
    !finishes_with(path, ".num_batches_tracked")
}

pub fn speaker_embedding_tensor(path: &str) -> (out: bool)
    ensures
        out == Subtree::SpeakerEmbedding.contains(path@),
{
    begins_with(path, "emb_g.")
}

pub fn language_embedding_tensor(path: &str) -> (out: bool)
    ensures
        out == Subtree::LanguageEmbedding.contains(path@),
{
    begins_with(path, "emb_l.")
}

pub fn glow_encoder_tensor(path: &str) -> (out: bool)
    ensures
        out == Subtree::GlowEncoder.contains(path@),
{
    begins_with(path, "emb.") || begins_with(path, "prenet.") || begins_with(path, "encoder.")
        || begins_with(path, "proj_m.") || begins_with(path, "proj_s.") || begins_with(
        path,
        "duration_predictor.",
    )
}

pub fn glow_encoder_without_duration_tensor(path: &str) -> (out: bool)
    ensures
        out == Subtree::GlowEncoderWithoutDuration.contains(path@),
{
    !begins_with(path, "duration_predictor.") && glow_encoder_tensor(path)
}

pub fn glow_decoder_tensor(path: &str) -> (out: bool)
    ensures
        out == Subtree::GlowDecoder.contains(path@),
{
    begins_with(path, "blocks.")
}

pub fn waveform_decoder_tensor(path: &str) -> (out: bool)
    ensures
        out == Subtree::WaveformDecoder.contains(path@),
{
    begins_with(path, "conv_pre.") || begins_with(path, "ups.") || begins_with(path, "resblocks.")
        || begins_with(path, "conv_post.") || begins_with(path, "cond_layer.")
}

pub fn freevc_decoder_tensor(path: &str) -> (out: bool)
    ensures
        out == Subtree::FreevcDecoder.contains(path@),
{
    if !begins_with(path, "dec.") {
        return false;
    }
    let rest = path.substring_char("dec.".unicode_len(), path.unicode_len());
    assert(rest@ =~= below_dec(path@));
    begins_with(rest, "cond.") || waveform_decoder_tensor(rest)
}

pub fn tacotron_inference_tensor(source: &str) -> (out: bool)
    ensures
        out == Subtree::TacotronInference.contains(source@),
{
    !begins_with(source, "coarse_decoder.") && !begins_with(source, "decoder_backward.")
        && !begins_with(source, "capacitron_vae_layer.") && !begins_with(source, "gst_layer.")
}

pub fn delightful_inference_tensor(path: &str) -> (out: bool)
    ensures
        out == Subtree::DelightfulInference.contains(path@),
{
    begins_with(path, "acoustic_model.") && !contains_text(path, ".aligner.") && !contains_text(
        path,
        ".utterance_prosody_encoder.",
    ) && !contains_text(path, ".phoneme_prosody_encoder.") && !contains_text(
        path,
        ".energy_scaler.",
    ) && !contains_text(path, ".padding_mult")
}

/// The paths that belong to a part, in order.
pub open spec fn belonging(paths: Seq<Seq<char>>, subtree: Subtree) -> Seq<Seq<char>>
    decreases paths.len(),
{
    if paths.len() == 0 {
        Seq::empty()
    } else {
        let before = belonging(paths.drop_last(), subtree);
        if subtree.contains(paths.last()) {
            before.push(paths.last())
        } else {
            before
        }
    }
}

/// The module paths of the missing tensors.
pub open spec fn missing_paths(missing: Seq<(String, String)>) -> Seq<Seq<char>> {
    Seq::new(missing.len(), |i: int| missing[i].0@)
}

/// The missing tensors as `path->place`.
pub open spec fn missing_routes(missing: Seq<(String, String)>) -> Seq<Seq<char>> {
    Seq::new(missing.len(), |i: int| missing[i].0@ + "->"@ + missing[i].1@)
}

/// The paths that belong to a part, in order.
pub fn paths_belonging(paths: &Vec<String>, subtree: Subtree) -> (out: Vec<String>)
    ensures
        views(out@) == belonging(views(paths@), subtree),
{
    let mut out: Vec<String> = Vec::new();
    let mut i: usize = 0;
    assert(views(out@) =~= belonging(views(paths@).take(0), subtree));
    while i < paths.len()
        invariant
            i <= paths.len(),
            views(out@) == belonging(views(paths@).take(i as int), subtree),
        decreases paths.len() - i,
    {
        proof {
            assert(views(paths@).take(i + 1).drop_last() =~= views(paths@).take(i as int));
        }
        if subtree.holds(paths[i].as_str()) {
            let ghost before = out@;
            out.push(paths[i].clone());
            assert(views(out@) =~= views(before).push(paths[i as int]@));
        }
        i = i + 1;
    }
    assert(views(paths@).take(paths.len() as int) =~= views(paths@));
    out
}

/// The module paths of the missing tensors.
pub fn missing_path_list(missing: &Vec<(String, String)>) -> (out: Vec<String>)
    ensures
        views(out@) == missing_paths(missing@),
{
    let mut out: Vec<String> = Vec::new();
    let mut i: usize = 0;
    while i < missing.len()
        invariant
            i <= missing.len(),
            out.len() == i,
            forall|k: int| 0 <= k < i ==> (#[trigger] out[k])@ == missing[k].0@,
        decreases missing.len() - i,
    {
        out.push(missing[i].0.clone());
        i = i + 1;
    }
    assert(views(out@) =~= missing_paths(missing@));
    out
}

/// The missing tensors as `path->place`.
pub fn missing_route_list(missing: &Vec<(String, String)>) -> (out: Vec<String>)
    ensures
        views(out@) == missing_routes(missing@),
{
    let mut out: Vec<String> = Vec::new();
    let mut i: usize = 0;
    while i < missing.len()
        invariant
            i <= missing.len(),
            out.len() == i,
            forall|k: int|
                0 <= k < i ==> (#[trigger] out[k])@ == missing[k].0@ + "->"@ + missing[k].1@,
        decreases missing.len() - i,
    {
        out.push(around_text(missing[i].0.as_str(), "->", missing[i].1.as_str()));
        i = i + 1;
    }
    assert(views(out@) =~= missing_routes(missing@));
    out
}

impl LoadReport {
    /// Nothing is missing, nothing failed, and no tensor of the part went unused.
    pub open spec fn fits(self, subtree: Subtree) -> bool {
        &&& self.missing.len() == 0
        &&& self.errors.len() == 0
        &&& belonging(views(self.unused@), subtree).len() == 0
    }

    /// The counts of a report and the unused tensors of a part.
    pub open spec fn counted(
        self,
        heading: Seq<char>,
        subtree: Subtree,
        before_unused: Seq<char>,
        after_unused: Seq<char>,
    ) -> Seq<char> {
        heading + decimal(self.missing.len() as nat) + " missing, "@ + decimal(
            self.errors.len() as nat,
        ) + before_unused + joined(belonging(views(self.unused@), subtree), ", "@) + after_unused
    }

    /// The missing tensors by name, the number of failures, and the unused tensors of a part.
    pub open spec fn listed(self, heading: Seq<char>, subtree: Subtree) -> Seq<char> {
        heading + joined(missing_paths(self.missing@), ", "@) + "], "@ + decimal(
            self.errors.len() as nat,
        ) + " load errors, unused ["@ + joined(belonging(views(self.unused@), subtree), ", "@) + "]"@
    }

    /// Every disagreement by name.
    pub open spec fn itemized(self) -> Seq<char> {
        "checkpoint does not exactly match the native inference graph: missing ["@ + joined(
            missing_routes(self.missing@),
            ", "@,
        ) + "], load errors ["@ + joined(views(self.errors@), "; "@) + "], unexpected tensors ["@
            + joined(belonging(views(self.unused@), Subtree::Learned), ", "@) + "]"@
    }

    pub fn fault_counted(
        &self,
        heading: &str,
        subtree: Subtree,
        before_unused: &str,
        after_unused: &str,
    ) -> (out: Option<String>)
        ensures
            match out {
                None => self.fits(subtree),
                Some(message) => !self.fits(subtree) && message@ == self.counted(
                    heading@,
                    subtree,
                    before_unused@,
                    after_unused@,
                ),
            },
    {
        let unused = paths_belonging(&self.unused, subtree);
        assert(views(unused@).len() == unused.len());
        if self.missing.len() == 0 && self.errors.len() == 0 && unused.len() == 0 {
            return None;
        }
        let mut message = around_number(heading, self.missing.len(), " missing, ");
        message.append(decimal_text(self.errors.len() as u64).as_str());
        message.append(before_unused);
        message.append(joined_text(unused.as_slice(), ", ").as_str());
        message.append(after_unused);
        Some(message)
    }

    pub fn fault_listed(&self, heading: &str, subtree: Subtree) -> (out: Option<String>)
        ensures
            match out {
                None => self.fits(subtree),
                Some(message) => !self.fits(subtree) && message@ == self.listed(heading@, subtree),
            },
    {
        let unused = paths_belonging(&self.unused, subtree);
        assert(views(unused@).len() == unused.len());
        if self.missing.len() == 0 && self.errors.len() == 0 && unused.len() == 0 {
            return None;
        }
        let missing = missing_path_list(&self.missing);
        Some(listed_message(heading, &missing, self.errors.len(), &unused))
    }

    pub fn fault_itemized(&self) -> (out: Option<String>)
        ensures
            match out {
                None => self.fits(Subtree::Learned),
                Some(message) => !self.fits(Subtree::Learned) && message@ == self.itemized(),
            },
    {
        let unused = paths_belonging(&self.unused, Subtree::Learned);
        assert(views(unused@).len() == unused.len());
        if self.missing.len() == 0 && self.errors.len() == 0 && unused.len() == 0 {
            return None;
        }
        let routes = missing_route_list(&self.missing);
        let mut message = with_text(
            "checkpoint does not exactly match the native inference graph: missing [",
            joined_text(routes.as_slice(), ", ").as_str(),
        );
        message.append("], load errors [");
        message.append(joined_text(self.errors.as_slice(), "; ").as_str());
        message.append("], unexpected tensors [");
        message.append(joined_text(unused.as_slice(), ", ").as_str());
        message.append("]");
        Some(message)
    }
}

/// Missing tensors by name, a number of failures, and unused tensors by name.
pub fn listed_message(heading: &str, missing: &Vec<String>, errors: usize, unused: &Vec<String>) -> (out:
    String)
    ensures
        out@ == heading@ + joined(views(missing@), ", "@) + "], "@ + decimal(errors as nat)
            + " load errors, unused ["@ + joined(views(unused@), ", "@) + "]"@,
{
    let mut message = around_text(heading, joined_text(missing.as_slice(), ", ").as_str(), "], ");
    message.append(decimal_text(errors as u64).as_str());
    message.append(" load errors, unused [");
    message.append(joined_text(unused.as_slice(), ", ").as_str());
    message.append("]");
    message
}

/// The heading of the reports of whole models.
pub open spec fn whole_model_heading() -> Seq<char> {
    "checkpoint does not exactly match the Burn model: "@
}

/// What belongs to a part is kept, in order and as often as it occurs; of a longer list its
/// last path comes last.
pub proof fn belonging_keeps_order(paths: Seq<Seq<char>>, path: Seq<char>, subtree: Subtree)
    ensures
        belonging(paths.push(path), subtree) == if subtree.contains(path) {
            belonging(paths, subtree).push(path)
        } else {
            belonging(paths, subtree)
        },
{
    assert(paths.push(path).drop_last() =~= paths);
}

proof fn belonging_is_empty(paths: Seq<Seq<char>>, subtree: Subtree)
    ensures
        belonging(paths, subtree).len() == 0 <==> forall|i: int|
            0 <= i < paths.len() ==> !subtree.contains(#[trigger] paths[i]),
    decreases paths.len(),
{
    if paths.len() > 0 {
        let before = paths.drop_last();
        belonging_is_empty(before, subtree);
        if belonging(paths, subtree).len() == 0 {
            assert forall|i: int| 0 <= i < paths.len() implies !subtree.contains(
                #[trigger] paths[i],
            ) by {
                if i < before.len() {
                    assert(paths[i] == before[i]);
                }
            }
        } else if subtree.contains(paths.last()) {
            assert(paths[paths.len() - 1] == paths.last());
        } else {
            let i = choose|i: int| 0 <= i < before.len() && subtree.contains(#[trigger] before[i]);
            assert(paths[i] == before[i]);
        }
    }
}

/// A report fits a part exactly where nothing is missing, nothing failed, and no unused tensor is
/// of the part.
pub proof fn fitting_leaves_nothing(report: LoadReport, subtree: Subtree)
    ensures
        report.fits(subtree) <==> report.missing.len() == 0 && report.errors.len() == 0 && (
        forall|i: int|
            0 <= i < report.unused.len() ==> !subtree.contains(#[trigger] report.unused@[i]@)),
{
    let paths = views(report.unused@);
    belonging_is_empty(paths, subtree);
    if belonging(paths, subtree).len() == 0 {
        assert forall|i: int| 0 <= i < report.unused.len() implies !subtree.contains(
            #[trigger] report.unused@[i]@,
        ) by {
            assert(paths[i] == report.unused@[i]@);
        }
    } else {
        let i = choose|i: int| 0 <= i < paths.len() && subtree.contains(#[trigger] paths[i]);
        assert(paths[i] == report.unused@[i]@);
    }
}

/// The path is the prefix and something after it.
pub open spec fn starts(path: Seq<char>, prefix: Seq<char>) -> bool {
    exists|rest: Seq<char>| path == #[trigger] (prefix + rest)
}

/// The path passes through the part.
pub open spec fn passes(path: Seq<char>, part: Seq<char>) -> bool {
    exists|before: Seq<char>, after: Seq<char>| path == #[trigger] (before + part + after)
}

proof fn prefixes_start(path: Seq<char>, prefix: Seq<char>)
    ensures
        under(path, prefix) <==> starts(path, prefix),
{
    if under(path, prefix) {
        assert(path =~= prefix + path.skip(prefix.len() as int));
    }
    if starts(path, prefix) {
        let rest = choose|rest: Seq<char>| path == #[trigger] (prefix + rest);
        assert(prefix =~= path.take(prefix.len() as int));
    }
}

proof fn parts_occur(path: Seq<char>, part: Seq<char>)
    ensures
        occurs_in(part, path) <==> passes(path, part),
{
    let length = part.len() as int;
    if occurs_in(part, path) {
        let at = choose|at: int| crate::text::occurs_at(part, path, at);
        assert(path =~= path.take(at) + part + path.skip(at + length));
    }
    if passes(path, part) {
        let (before, after) = choose|before: Seq<char>, after: Seq<char>|
            path == #[trigger] (before + part + after);
        let at = before.len() as int;
        assert(path.subrange(at, at + length) =~= part);
        assert(crate::text::occurs_at(part, path, at));
    }
}

/// The tables of speakers and languages and the flow of a spectrogram each have one prefix.
pub proof fn tables_have_one_prefix(
    path: &str,
    speakers: bool,
    languages: bool,
    flow: bool,
)
    requires
        call_ensures(speaker_embedding_tensor, (path,), speakers),
        call_ensures(language_embedding_tensor, (path,), languages),
        call_ensures(glow_decoder_tensor, (path,), flow),
    ensures
        speakers <==> starts(path@, "emb_g."@),
        languages <==> starts(path@, "emb_l."@),
        flow <==> starts(path@, "blocks."@),
{
    prefixes_start(path@, "emb_g."@);
    prefixes_start(path@, "emb_l."@);
    prefixes_start(path@, "blocks."@);
}

/// All but the counters of normalization layers is learned.
pub proof fn counters_are_not_learned(path: &str, out: bool)
    requires
        call_ensures(checkpoint_tensor, (path,), out),
    ensures
        out <==> !(exists|rest: Seq<char>| path@ == #[trigger] (rest + ".num_batches_tracked"@)),
{
    let suffix = ".num_batches_tracked"@;
    if suffix.is_suffix_of(path@) {
        assert(path@ =~= path@.take(path@.len() - suffix.len()) + suffix);
    }
    if exists|rest: Seq<char>| path@ == #[trigger] (rest + suffix) {
        let rest = choose|rest: Seq<char>| path@ == #[trigger] (rest + suffix);
        assert(suffix =~= path@.skip(path@.len() - suffix.len()));
    }
}

/// The encoder of a flow has six parts; where durations are drawn it lacks the last.
pub proof fn encoders_have_six_parts(path: &str, whole: bool, drawn: bool)
    requires
        call_ensures(glow_encoder_tensor, (path,), whole),
        call_ensures(glow_encoder_without_duration_tensor, (path,), drawn),
    ensures
        whole <==> {
            ||| starts(path@, "emb."@)
            ||| starts(path@, "prenet."@)
            ||| starts(path@, "encoder."@)
            ||| starts(path@, "proj_m."@)
            ||| starts(path@, "proj_s."@)
            ||| starts(path@, "duration_predictor."@)
        },
        drawn <==> whole && !starts(path@, "duration_predictor."@),
{
    prefixes_start(path@, "emb."@);
    prefixes_start(path@, "prenet."@);
    prefixes_start(path@, "encoder."@);
    prefixes_start(path@, "proj_m."@);
    prefixes_start(path@, "proj_s."@);
    prefixes_start(path@, "duration_predictor."@);
}

/// A decoder of waveforms has five parts. Where it stands below `dec.` it has them there, and one
/// more for its conditioning.
pub proof fn waveform_decoders_have_five_parts(path: &str, below: &str, plain: bool, nested: bool)
    requires
        path@ == "dec."@ + below@,
        call_ensures(waveform_decoder_tensor, (below,), plain),
        call_ensures(freevc_decoder_tensor, (path,), nested),
    ensures
        plain <==> {
            ||| starts(below@, "conv_pre."@)
            ||| starts(below@, "ups."@)
            ||| starts(below@, "resblocks."@)
            ||| starts(below@, "conv_post."@)
            ||| starts(below@, "cond_layer."@)
        },
        nested <==> plain || starts(below@, "cond."@),
{
    prefixes_start(path@, "dec."@);
    assert(starts(path@, "dec."@));
    assert(below_dec(path@) =~= below@);
    prefixes_start(below@, "conv_pre."@);
    prefixes_start(below@, "ups."@);
    prefixes_start(below@, "resblocks."@);
    prefixes_start(below@, "conv_post."@);
    prefixes_start(below@, "cond_layer."@);
    prefixes_start(below@, "cond."@);
}

/// What does not stand below `dec.` is not of the nested decoder.
pub proof fn nested_decoders_stand_below(path: &str, nested: bool)
    requires
        call_ensures(freevc_decoder_tensor, (path,), nested),
    ensures
        nested ==> starts(path@, "dec."@),
{
    prefixes_start(path@, "dec."@);
}

/// Inference needs neither the decoders that only training runs nor the layers of styles.
pub proof fn training_parts_are_left_out(path: &str, attentive: bool, delightful: bool)
    requires
        call_ensures(tacotron_inference_tensor, (path,), attentive),
        call_ensures(delightful_inference_tensor, (path,), delightful),
    ensures
        attentive <==> {
            &&& !starts(path@, "coarse_decoder."@)
            &&& !starts(path@, "decoder_backward."@)
            &&& !starts(path@, "capacitron_vae_layer."@)
            &&& !starts(path@, "gst_layer."@)
        },
        delightful <==> {
            &&& starts(path@, "acoustic_model."@)
            &&& !passes(path@, ".aligner."@)
            &&& !passes(path@, ".utterance_prosody_encoder."@)
            &&& !passes(path@, ".phoneme_prosody_encoder."@)
            &&& !passes(path@, ".energy_scaler."@)
            &&& !passes(path@, ".padding_mult"@)
        },
{
    prefixes_start(path@, "coarse_decoder."@);
    prefixes_start(path@, "decoder_backward."@);
    prefixes_start(path@, "capacitron_vae_layer."@);
    prefixes_start(path@, "gst_layer."@);
    prefixes_start(path@, "acoustic_model."@);
    parts_occur(path@, ".aligner."@);
    parts_occur(path@, ".utterance_prosody_encoder."@);
    parts_occur(path@, ".phoneme_prosody_encoder."@);
    parts_occur(path@, ".energy_scaler."@);
    parts_occur(path@, ".padding_mult"@);
}

/// Each part holds what its own rule says.
pub proof fn parts_follow_their_rules(
    path: &str,
    subtree: Subtree,
    held: bool,
    learned: bool,
    speakers: bool,
    languages: bool,
    encoder: bool,
    drawn: bool,
    flow: bool,
    waveform: bool,
    nested: bool,
    attentive: bool,
    delightful: bool,
)
    requires
        call_ensures(Subtree::holds, (subtree, path), held),
        call_ensures(checkpoint_tensor, (path,), learned),
        call_ensures(speaker_embedding_tensor, (path,), speakers),
        call_ensures(language_embedding_tensor, (path,), languages),
        call_ensures(glow_encoder_tensor, (path,), encoder),
        call_ensures(glow_encoder_without_duration_tensor, (path,), drawn),
        call_ensures(glow_decoder_tensor, (path,), flow),
        call_ensures(waveform_decoder_tensor, (path,), waveform),
        call_ensures(freevc_decoder_tensor, (path,), nested),
        call_ensures(tacotron_inference_tensor, (path,), attentive),
        call_ensures(delightful_inference_tensor, (path,), delightful),
    ensures
        held == match subtree {
            Subtree::Learned => learned,
            Subtree::SpeakerEmbedding => speakers,
            Subtree::LanguageEmbedding => languages,
            Subtree::GlowEncoder => encoder,
            Subtree::GlowEncoderWithoutDuration => drawn,
            Subtree::GlowDecoder => flow,
            Subtree::WaveformDecoder => waveform,
            Subtree::FreevcDecoder => nested,
            Subtree::TacotronInference => attentive,
            Subtree::DelightfulInference => delightful,
        },
{
}

/// One path more is kept exactly where it belongs to the part, behind those before it.
pub proof fn paths_are_kept_in_order(
    paths: &Vec<String>,
    more: &Vec<String>,
    path: String,
    name: &str,
    subtree: Subtree,
    held: bool,
    before: Vec<String>,
    after: Vec<String>,
)
    requires
        more@ == paths@.push(path),
        name@ == path@,
        call_ensures(Subtree::holds, (subtree, name), held),
        call_ensures(paths_belonging, (paths, subtree), before),
        call_ensures(paths_belonging, (more, subtree), after),
    ensures
        paths.len() == 0 ==> before.len() == 0,
        views(after@) == if held {
            views(before@).push(path@)
        } else {
            views(before@)
        },
{
    assert(views(more@) =~= views(paths@).push(path@));
    belonging_keeps_order(views(paths@), path@, subtree);
    assert(views(before@).len() == before.len());
}

/// A missing tensor is reported by its path, or by its path and the place where it was sought.
pub proof fn missing_tensors_are_named(
    missing: &Vec<(String, String)>,
    paths: Vec<String>,
    routes: Vec<String>,
    i: int,
)
    requires
        call_ensures(missing_path_list, (missing,), paths),
        call_ensures(missing_route_list, (missing,), routes),
        0 <= i < missing.len(),
    ensures
        paths.len() == missing.len() && routes.len() == missing.len(),
        paths@[i]@ == missing@[i].0@,
        routes@[i]@ == missing@[i].0@ + "->"@ + missing@[i].1@,
{
    assert(views(paths@).len() == paths.len());
    assert(views(routes@).len() == routes.len());
    assert(views(paths@)[i] == paths@[i]@);
    assert(views(routes@)[i] == routes@[i]@);
}

/// A report has a fault exactly where a tensor is missing, one failed, or one of the part went
/// unused, however the fault is worded.
pub proof fn faults_are_found_alike(
    report: &LoadReport,
    heading: &str,
    before_unused: &str,
    after_unused: &str,
    subtree: Subtree,
    counted: Option<String>,
    listed: Option<String>,
    itemized: Option<String>,
)
    requires
        call_ensures(
            LoadReport::fault_counted,
            (report, heading, subtree, before_unused, after_unused),
            counted,
        ),
        call_ensures(LoadReport::fault_listed, (report, heading, subtree), listed),
        call_ensures(LoadReport::fault_itemized, (report,), itemized),
    ensures
        counted is None <==> report.missing.len() == 0 && report.errors.len() == 0 && (forall|i: int|
            0 <= i < report.unused.len() ==> !subtree.contains(#[trigger] report.unused@[i]@)),
        listed is Some <==> counted is Some,
        subtree == Subtree::Learned ==> (itemized is Some <==> counted is Some),
        counted matches Some(message) ==> starts(message@, heading@),
        listed matches Some(message) ==> starts(message@, heading@),
{
    fitting_leaves_nothing(*report, subtree);
    if let Some(message) = counted {
        prefixes_start(message@, heading@);
        assert(under(message@, heading@));
    }
    if let Some(message) = listed {
        prefixes_start(message@, heading@);
        assert(under(message@, heading@));
    }
}

/// Nothing of a part went unused exactly where no unused tensor belongs to it.
pub proof fn unused_parts_are_told(report: LoadReport, subtree: Subtree)
    ensures
        belonging(views(report.unused@), subtree).len() == 0 <==> forall|i: int|
            0 <= i < report.unused.len() ==> !subtree.contains(#[trigger] report.unused@[i]@),
{
    let paths = views(report.unused@);
    belonging_is_empty(paths, subtree);
    if belonging(paths, subtree).len() == 0 {
        assert forall|i: int| 0 <= i < report.unused.len() implies !subtree.contains(
            #[trigger] report.unused@[i]@,
        ) by {
            assert(paths[i] == report.unused@[i]@);
        }
    } else {
        let i = choose|i: int| 0 <= i < paths.len() && subtree.contains(#[trigger] paths[i]);
        assert(paths[i] == report.unused@[i]@);
    }
}

} // verus!
