//! The wire shape of a finished transcription, and the mapping from the
//! pipeline's output to it. The serializer derives live on a mirror type
//! beside the transport code; this is the verified shape they mirror.

use vstd::prelude::*;
use crate::whisper::scorer::Confidence;
use crate::whisper::transcriber::TranscribeOutput;

verus! {

/// One segment as returned to the caller.
pub struct TranscriptionSegment {
    pub start: usize,
    pub end: usize,
    pub text: String,
    pub confidence: Confidence,
}

/// A whole response: the combined text and the segments it came from.
pub struct TranscriptionDto {
    pub text: String,
    pub segments: Option<Vec<TranscriptionSegment>>,
}

impl TranscriptionDto {
    /// Map the pipeline's output onto the wire shape: the combined text
    /// becomes the response text and every segment is carried over in
    /// order, field for field.
    pub fn from_output(output: TranscribeOutput) -> (dto: TranscriptionDto)
        ensures
            dto.text == output.combined,
            dto.segments matches Some(segs) && segs@.len() == output.segments@.len(),
            forall|i: int|
                0 <= i < output.segments@.len() ==> {
                    let s = #[trigger] dto.segments->Some_0@[i];
                    let o = output.segments@[i];
                    &&& s.start == o.start
                    &&& s.end == o.end
                    &&& s.text == o.text
                    &&& s.confidence == o.confidence
                },
    {
        let n = output.segments.len();
        let mut segs: Vec<TranscriptionSegment> = Vec::new();
        let mut i: usize = 0;
        while i < n
            invariant
                n == output.segments@.len(),
                i <= n,
                segs@.len() == i,
                forall|k: int|
                    0 <= k < i ==> {
                        let s = #[trigger] segs@[k];
                        let o = output.segments@[k];
                        &&& s.start == o.start
                        &&& s.end == o.end
                        &&& s.text == o.text
                        &&& s.confidence == o.confidence
                    },
            decreases n - i,
        {
            let seg = &output.segments[i];
            segs.push(
                TranscriptionSegment {
                    start: seg.start,
                    end: seg.end,
                    text: seg.text.clone(),
                    confidence: seg.confidence,
                },
            );
            i = i + 1;
        }
        TranscriptionDto { text: output.combined, segments: Some(segs) }
    }
}

} // verus!
