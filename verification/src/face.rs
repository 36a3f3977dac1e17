//! The face service's own decisions around detection and embedding: the
//! detector's input size, how many faces to keep, how detected faces are
//! saved and indexed, and the keys they get. Detection, alignment and the
//! floating-point features themselves are computed outside.

use vstd::prelude::*;
use crate::text;
use crate::text::{push_all, str_chars, string_from_chars};

verus! {

/// The detector's square input side: the image's longer side, kept within
/// 320 to 1280.
pub open spec fn spec_detect_input_size(width: u32, height: u32) -> u32 {
    let long_side = if width >= height { width } else { height };
    if long_side < 320 {
        320
    } else if long_side > 1280 {
        1280
    } else {
        long_side
    }
}

/// The detector's input side for an image.
pub fn detect_input_size(width: u32, height: u32) -> (r: u32)
    ensures
        r == spec_detect_input_size(width, height),
        320 <= r <= 1280,
{
    let long_side = if width >= height { width } else { height };
    if long_side < 320 {
        320
    } else if long_side > 1280 {
        1280
    } else {
        long_side
    }
}

/// The number of anchor rows the detector emits for one stride: two per
/// cell of the `side / stride` grid.
pub fn anchors_per_stride(input_size: u32, stride: u32) -> (r: usize)
    requires
        stride > 0,
        input_size <= 1280,
    ensures
        r == (input_size / stride) * (input_size / stride) * 2,
{
    let cells = input_size / stride;
    assert(cells <= 1280);
    assert(cells * cells * 2 <= 1280 * 1280 * 2) by (nonlinear_arith)
        requires
            cells <= 1280,
    ;
    (cells * cells * 2) as usize
}

/// How many faces to keep: the request's number when positive, else the
/// configured one when positive, else 20.
pub fn effective_max_faces(requested: i32, configured: i32) -> (r: i32)
    ensures
        r == (if requested > 0 {
            requested
        } else if configured > 0 {
            configured
        } else {
            20
        }),
        r > 0,
{
    if requested > 0 {
        requested
    } else if configured > 0 {
        configured
    } else {
        20
    }
}

/// `face_{id}`, the image key of a saved face.
pub fn face_key(id: u64) -> (r: String)
    ensures
        r@ == "face_"@ + text::decimal_seq(id as nat),
{
    let mut k = str_chars("face_");
    push_all(&mut k, &text::u64_to_decimal(id));
    string_from_chars(&k)
}

/// Whether a detected face is first looked up among the indexed faces.
pub fn needs_duplicate_search(index_embedding: bool, save_aligned_images: bool) -> (r: bool)
    ensures
        r == (index_embedding || save_aligned_images),
{
    index_embedding || save_aligned_images
}

/// What is done with one detected face before it is indexed.
#[derive(PartialEq, Eq, Structural, Clone, Copy)]
pub enum FaceStoreStep {
    /// The face is already indexed under this id; nothing is saved.
    UseExisting(u64),
    /// Save the aligned face image under a new key.
    SaveImage,
    /// Saving was asked for but no image service is available.
    SaveUnavailable,
    /// Only index the vector, under a new id.
    IndexOnly,
    /// Neither save nor index.
    Nothing,
}

/// Decide the step for one face.
pub fn face_store_step(existing: Option<u64>, save_aligned_images: bool, image_service: bool, index_embedding: bool) -> (r: FaceStoreStep)
    ensures
        r == (match existing {
            Some(id) => FaceStoreStep::UseExisting(id),
            None => if save_aligned_images {
                if image_service {
                    FaceStoreStep::SaveImage
                } else {
                    FaceStoreStep::SaveUnavailable
                }
            } else if index_embedding {
                FaceStoreStep::IndexOnly
            } else {
                FaceStoreStep::Nothing
            },
        }),
{
    match existing {
        Some(id) => FaceStoreStep::UseExisting(id),
        None => {
            if save_aligned_images {
                if image_service {
                    FaceStoreStep::SaveImage
                } else {
                    FaceStoreStep::SaveUnavailable
                }
            } else if index_embedding {
                FaceStoreStep::IndexOnly
            } else {
                FaceStoreStep::Nothing
            }
        },
    }
}

/// Where a face ended up: image key, bucket and the id its vector uses.
pub struct FaceSaved {
    pub key: String,
    pub bucket: String,
    pub face_id: u64,
}

/// The outcome of a step. `new_id` is the id generated for a new face (used
/// by `SaveImage` and `IndexOnly`), `bucket` where the image was saved, and
/// `saved` whether saving succeeded.
pub fn face_saved(step: FaceStoreStep, new_id: u64, bucket: &str, saved: bool) -> (r: FaceSaved)
    ensures
        match step {
            FaceStoreStep::UseExisting(id) => r.key@ == "face_"@ + text::decimal_seq(id as nat) && r.bucket@.len() == 0
                && r.face_id == id,
            FaceStoreStep::SaveImage => if saved {
                r.key@ == "face_"@ + text::decimal_seq(new_id as nat) && r.bucket@ == bucket@ && r.face_id == new_id
            } else {
                r.key@.len() == 0 && r.bucket@.len() == 0 && r.face_id == new_id
            },
            FaceStoreStep::IndexOnly => r.key@.len() == 0 && r.bucket@.len() == 0 && r.face_id == new_id,
            _ => r.key@.len() == 0 && r.bucket@.len() == 0 && r.face_id == 0,
        },
{
    match step {
        FaceStoreStep::UseExisting(id) => FaceSaved { key: face_key(id), bucket: String::new(), face_id: id },
        FaceStoreStep::SaveImage => {
            if saved {
                FaceSaved { key: face_key(new_id), bucket: string_from_chars(&str_chars(bucket)), face_id: new_id }
            } else {
                FaceSaved { key: String::new(), bucket: String::new(), face_id: new_id }
            }
        },
        FaceStoreStep::IndexOnly => FaceSaved { key: String::new(), bucket: String::new(), face_id: new_id },
        _ => FaceSaved { key: String::new(), bucket: String::new(), face_id: 0 },
    }
}

/// Whether the face's vector is to be written to the index: it is new,
/// indexing was asked for, it has an id, and an index service is available.
pub fn should_index_face(existing: Option<u64>, index_embedding: bool, face_id: u64, embedding_service: bool) -> (r: bool)
    ensures
        r == (existing is None && index_embedding && face_id > 0 && embedding_service),
{
    existing.is_none() && index_embedding && face_id > 0 && embedding_service
}

/// The vector id reported for a face: the existing id, the face id when
/// indexing succeeded, else zero.
pub fn indexed_vector_id(existing: Option<u64>, face_id: u64, indexed: bool) -> (r: u64)
    ensures
        r == (match existing {
            Some(id) => id,
            None => if indexed {
                face_id
            } else {
                0
            },
        }),
{
    match existing {
        Some(id) => id,
        None => if indexed { face_id } else { 0 },
    }
}

/// How many faces a detection request keeps: the request's number when
/// positive, else the configured one (zero or less meaning no limit).
pub fn detect_max_faces(requested: i32, configured: i32) -> (r: i32)
    ensures
        r == (if requested > 0 { requested } else { configured }),
{
    if requested > 0 {
        requested
    } else {
        configured
    }
}

/// How many of `n` detected faces (best first) are kept under a limit:
/// all of them unless the limit is positive and smaller.
pub fn kept_face_count(n: usize, max_faces: i32) -> (r: usize)
    ensures
        r == (if max_faces > 0 && n > max_faces as usize { max_faces as usize } else { n }),
{
    if max_faces > 0 && n > max_faces as usize {
        max_faces as usize
    } else {
        n
    }
}

/// Two features are compared only when both have 512 values; otherwise
/// `特征向量维度应为 512，实际 feature1={len1}, feature2={len2}`.
pub fn check_feature_dims(len1: usize, len2: usize) -> (r: Result<(), String>)
    ensures
        r is Ok <==> (len1 == 512 && len2 == 512),
        r matches Err(e) ==> e@ == "特征向量维度应为 512，实际 feature1="@ + text::decimal_seq(len1 as nat) + ", feature2="@
            + text::decimal_seq(len2 as nat),
{
    if len1 == 512 && len2 == 512 {
        return Ok(());
    }
    let mut m = str_chars("特征向量维度应为 512，实际 feature1=");
    push_all(&mut m, &text::u64_to_decimal(len1 as u64));
    push_all(&mut m, &str_chars(", feature2="));
    push_all(&mut m, &text::u64_to_decimal(len2 as u64));
    Err(string_from_chars(&m))
}

/// A new face id: the next snowflake id, or the time in milliseconds when
/// the generator fails. Nothing more is known of it.
pub fn generate_face_id(generator: &snowflake_me::Snowflake) -> (r: u64) {
    match crate::image::snowflake_next(generator) {
        Some(id) => id,
        None => crate::image::unix_now_millis(),
    }
}

/// `提取了 {n} 张人脸的特征`.
pub fn extract_summary(n: usize) -> (r: String)
    ensures
        r@ == "提取了 "@ + text::decimal_seq(n as nat) + " 张人脸的特征"@,
{
    let mut m = str_chars("提取了 ");
    push_all(&mut m, &text::u64_to_decimal(n as u64));
    push_all(&mut m, &str_chars(" 张人脸的特征"));
    string_from_chars(&m)
}

} // verus!
