//! Detection results and the merge of boxes that a verification found
//! missing.

use vstd::prelude::*;
use vstd::string::StringExecFns;
use crate::geometry::BoundingBox;
use crate::model::VerificationCheck;

verus! {

/// The boxes a detector found on a scan.
#[derive(Debug)]
pub struct DetectionResult {
    pub photo_count: usize,
    pub bounding_boxes: Vec<BoundingBox>,
    pub provider_used: String,
    /// Scan size in pixels, 0 where unknown.
    pub scan_width: u32,
    pub scan_height: u32,
}

/// Confidence, in thousandths, above which a merged box is not trusted.
pub const MERGED_CONFIDENCE_CAP: u32 = 800;

/// The character of a decimal digit.
pub open spec fn digit_char(d: nat) -> char {
    if d == 0 { '0' } else if d == 1 { '1' } else if d == 2 { '2' } else if d == 3 { '3' }
    else if d == 4 { '4' } else if d == 5 { '5' } else if d == 6 { '6' } else if d == 7 { '7' }
    else if d == 8 { '8' } else { '9' }
}

/// The decimal digits of `n`, most significant first.
pub open spec fn decimal(n: nat) -> Seq<char>
    decreases n,
{
    if n < 10 {
        seq![digit_char(n)]
    } else {
        decimal(n / 10).push(digit_char(n % 10))
    }
}

/// The text of one decimal digit.
fn digit_text(d: usize) -> (r: &'static str)
    requires
        d < 10,
    ensures
        r@ == seq![digit_char(d as nat)],
{
    if d == 0 {
        proof {
            reveal_strlit("0");
        }
        "0"
    } else if d == 1 {
        proof {
            reveal_strlit("1");
        }
        "1"
    } else if d == 2 {
        proof {
            reveal_strlit("2");
        }
        "2"
    } else if d == 3 {
        proof {
            reveal_strlit("3");
        }
        "3"
    } else if d == 4 {
        proof {
            reveal_strlit("4");
        }
        "4"
    } else if d == 5 {
        proof {
            reveal_strlit("5");
        }
        "5"
    } else if d == 6 {
        proof {
            reveal_strlit("6");
        }
        "6"
    } else if d == 7 {
        proof {
            reveal_strlit("7");
        }
        "7"
    } else if d == 8 {
        proof {
            reveal_strlit("8");
        }
        "8"
    } else {
        proof {
            reveal_strlit("9");
        }
        "9"
    }
}

/// The decimal text of `n`.
pub fn decimal_text(n: usize) -> (r: String)
    ensures
        r@ == decimal(n as nat),
    decreases n,
{
    if n < 10 {
        String::from_str(digit_text(n))
    } else {
        let mut s = decimal_text(n / 10);
        s.append(digit_text(n % 10));
        s
    }
}

/// The label `photo <n>`.
fn photo_label(n: usize) -> (r: String)
    ensures
        r@ == "photo "@ + decimal(n as nat),
{
    proof {
        reveal_strlit("photo ");
    }
    let mut s = String::from_str("photo ");
    let digits = decimal_text(n);
    s.append(digits.as_str());
    s
}

/// Some check named `completeness` did not pass.
pub open spec fn completeness_failed(checks: Seq<VerificationCheck>) -> bool {
    exists|i: int| 0 <= i < checks.len() && (#[trigger] checks[i]).name@ == "completeness"@ && !checks[i].passed
}

/// Whether some check named `completeness` did not pass.
pub fn has_failed_completeness(checks: &Vec<VerificationCheck>) -> (r: bool)
    ensures
        r == completeness_failed(checks@),
{
    let name = "completeness".to_owned();
    let mut i: usize = 0;
    while i < checks.len()
        invariant
            i <= checks@.len(),
            name@ == "completeness"@,
            forall|k: int| 0 <= k < i ==> !((#[trigger] checks@[k]).name@ == "completeness"@ && !checks@[k].passed),
        decreases checks@.len() - i,
    {
        if checks[i].name == name && !checks[i].passed {
            return true;
        }
        i += 1;
    }
    false
}

/// Adds to a detection the boxes a verification found missing, where its
/// completeness check failed and it found some: each is labelled
/// `photo <n>` by its place in the list and its confidence capped at 0.8;
/// the photo count follows. Otherwise the detection is returned as it was.
pub fn merge_missing_boxes(result: DetectionResult, checks: &Vec<VerificationCheck>, missing: Vec<BoundingBox>) -> (r: DetectionResult)
    requires
        result.bounding_boxes@.len() + missing@.len() < usize::MAX,
    ensures
        r.provider_used == result.provider_used,
        r.scan_width == result.scan_width,
        r.scan_height == result.scan_height,
        !(completeness_failed(checks@) && missing@.len() > 0) ==> r == result,
        completeness_failed(checks@) && missing@.len() > 0 ==> {
            let n0 = result.bounding_boxes@.len();
            &&& r.bounding_boxes@.len() == n0 + missing@.len()
            &&& r.photo_count == r.bounding_boxes@.len()
            &&& r.bounding_boxes@.subrange(0, n0 as int) == result.bounding_boxes@
            &&& forall|i: int| 0 <= i < missing@.len() ==> {
                let b = #[trigger] r.bounding_boxes@[n0 + i];
                let m = missing@[i];
                &&& b.rect() == m.rect()
                &&& b.rotation == m.rotation
                &&& b.contour@ == m.contour@
                &&& b.needs_outpaint == m.needs_outpaint
                &&& b.confidence_permille == if m.confidence_permille < MERGED_CONFIDENCE_CAP {
                    m.confidence_permille
                } else {
                    MERGED_CONFIDENCE_CAP
                }
                &&& b.label matches Some(l) && l@ == "photo "@ + decimal((n0 + i + 1) as nat)
            }
        },
{
    if !has_failed_completeness(checks) || missing.len() == 0 {
        return result;
    }
    let DetectionResult { photo_count: _, bounding_boxes, provider_used, scan_width, scan_height } = result;
    let ghost n0 = bounding_boxes@.len();
    let ghost orig = bounding_boxes@;
    let ghost miss = missing@;
    let mut boxes = bounding_boxes;
    let mut rest = missing;
    let n = rest.len();
    let mut k: usize = 0;
    while k < n
        invariant
            n == miss.len(),
            n0 + n < usize::MAX,
            k <= n,
            rest@ == miss.subrange(k as int, n as int),
            boxes@.len() == n0 + k,
            boxes@.subrange(0, n0 as int) == orig,
            forall|i: int| 0 <= i < k ==> {
                let b = #[trigger] boxes@[n0 + i];
                let m = miss[i];
                &&& b.rect() == m.rect()
                &&& b.rotation == m.rotation
                &&& b.contour@ == m.contour@
                &&& b.needs_outpaint == m.needs_outpaint
                &&& b.confidence_permille == if m.confidence_permille < MERGED_CONFIDENCE_CAP {
                    m.confidence_permille
                } else {
                    MERGED_CONFIDENCE_CAP
                }
                &&& b.label matches Some(l) && l@ == "photo "@ + decimal((n0 + i + 1) as nat)
            },
        decreases n - k,
    {
        let m = rest.remove(0);
        assert(m == miss[k as int]);
        let label = photo_label(boxes.len() + 1);
        let confidence_permille = if m.confidence_permille < MERGED_CONFIDENCE_CAP {
            m.confidence_permille
        } else {
            MERGED_CONFIDENCE_CAP
        };
        let ghost before = boxes@;
        boxes.push(BoundingBox {
            x: m.x,
            y: m.y,
            width: m.width,
            height: m.height,
            confidence_permille,
            label: Some(label),
            rotation: m.rotation,
            contour: m.contour,
            needs_outpaint: m.needs_outpaint,
        });
        assert(boxes@.subrange(0, n0 as int) =~= before.subrange(0, n0 as int));
        assert forall|i: int| 0 <= i < k implies #[trigger] boxes@[n0 + i] == before[n0 + i] by {}
        k += 1;
        assert(rest@ =~= miss.subrange(k as int, n as int));
    }
    let count = boxes.len();
    DetectionResult { photo_count: count, bounding_boxes: boxes, provider_used, scan_width, scan_height }
}

} // verus!
