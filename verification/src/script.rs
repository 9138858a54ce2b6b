//! Editing one named area of an image: the edit's settings, the script that
//! does the pixel work, and what is read back from it.

use vstd::prelude::*;
use crate::engine::join_texts;
use crate::text::{
    chars_of, contains, contains_str, decimal, lower, lower_chars_of, owned, push_decimal,
    push_str, string_of, trim, trim_chars,
};

verus! {

/// The pixel work done by the script once its settings are set: CLIPSeg
/// segmentation, the checks on the selection, then the stage asked for.
pub const SCRIPT_BODY: &'static str = r#"
def report(pct, msg):
    print(json.dumps({'progress': pct, 'detail': msg}), flush=True)

import numpy as np
import cv2
from PIL import Image

image = Image.open(image_path).convert('RGB')
W, H = image.size

# ── Mask, unless a previous stage already produced one ────────────────────
if not os.path.isfile(mask_path):
    report(10, "analyse de l'image")
    import torch
    from transformers import CLIPSegForImageSegmentation, CLIPSegProcessor
    MODEL = 'CIDAS/clipseg-rd64-refined'
    proc = CLIPSegProcessor.from_pretrained(MODEL)
    model = CLIPSegForImageSegmentation.from_pretrained(MODEL).eval()

    def heat_for(img):
        with torch.no_grad():
            inputs = proc(text=[target], images=[img], return_tensors='pt')
            logits = model(**inputs).logits
        return torch.sigmoid(logits).squeeze().cpu().numpy()

    # CLIPSeg reasons at 352 px, so anything small in a 1280 px photo is a
    # handful of pixels by the time it reaches the network — "the sunglasses"
    # scored 0.17 and covered 0.5 %. Running the same query over overlapping
    # tiles gives each region its own full budget of resolution: a detail that
    # is 0.5 % of the frame can be 5 % of a tile. Scores are merged by max, so
    # a strong local hit survives a weak global one.
    heat = cv2.resize(heat_for(image), (W, H), interpolation=cv2.INTER_CUBIC)
    report(22, "recherche des details")
    tiles, overlap = 2, 0.35
    tw, th = int(W / (tiles - overlap)), int(H / (tiles - overlap))
    step_x, step_y = int(tw * (1 - overlap)), int(th * (1 - overlap))
    for ty in range(tiles):
        for tx in range(tiles):
            x0, y0 = min(tx * step_x, max(0, W - tw)), min(ty * step_y, max(0, H - th))
            x1, y1 = min(W, x0 + tw), min(H, y0 + th)
            if x1 - x0 < 64 or y1 - y0 < 64:
                continue
            sub = heat_for(image.crop((x0, y0, x1, y1)))
            sub = cv2.resize(sub, (x1 - x0, y1 - y0), interpolation=cv2.INTER_CUBIC)
            heat[y0:y1, x0:x1] = np.maximum(heat[y0:y1, x0:x1], sub)

    confidence = float(heat.max())
    # A relative cut: CLIPSeg's absolute confidence swings with the wording, so
    # a fixed threshold either selects everything or nothing.
    mask = ((heat > max(0.4 * confidence, 0.12)) * 255).astype(np.uint8)
    # Grow slightly to cover the object's own outline, then feather so the
    # edit blends instead of showing a seam.
    mask = cv2.dilate(mask, np.ones((9, 9), np.uint8), 1)
    mask = cv2.GaussianBlur(mask, (21, 21), 0)
    mask = np.where(mask > 127, 255, 0).astype(np.uint8)
    mask = cv2.GaussianBlur(mask, (9, 9), 0)
    Image.fromarray(mask).save(mask_path)
else:
    confidence = 1.0
    mask = np.array(Image.open(mask_path).convert('L'))

coverage = 100.0 * float(np.count_nonzero(mask)) / mask.size

# How scattered is the selection? A real object is one or two connected
# pieces. Tiling raised confidence on vague descriptions without improving
# them: "the picture frames on the wall" scored 0.88 yet returned a dozen
# blobs spread over the wall, the door and the shelf. Fragmentation catches
# exactly what the confidence score misses.
n_lbl, _, stats, _ = cv2.connectedComponentsWithStats((mask > 127).astype(np.uint8), 8)
areas = sorted((stats[i, cv2.CC_STAT_AREA] for i in range(1, n_lbl)), reverse=True)
total_area = float(sum(areas)) or 1.0
# Pieces big enough to matter, i.e. at least 8 % of what was selected.
pieces = sum(1 for a in areas if a >= 0.08 * total_area)
largest_share = (areas[0] / total_area) if areas else 0.0
print(json.dumps({'mask': True, 'coverage': coverage, 'confidence': confidence,
                  'pieces': pieces, 'largest': largest_share}), flush=True)
if coverage < 0.2:
    print(json.dumps({'progress': -1,
                      'detail': "Rien trouve pour « %s »" % target}), flush=True)
    sys.exit(2)

# Confidence predicts the failure mode: asked for "the picture frames on the
# wall" the segmenter scored 0.41 and returned the entire wall, while the
# shelf (0.93) and the t-shirt (0.97) were exact. Editing the wrong region
# silently is worse than refusing, so a weak match stops here.
# In preview the point is to *see* a bad selection, so the guard only blocks
# real edits. Refusing to render the overlay would hide the very evidence the
# user needs to reword their description.
if confidence < 0.55 and stage != "preview":
    print(json.dumps({'progress': -1, 'detail':
        "Zone « %s » reconnue trop faiblement (%.0f %%) et couvrant %.0f %% de l'image. "
        "Reformulez plus precisement (ex. « le cadre a gauche » plutot que « les cadres »)."
        % (target, confidence * 100, coverage)}), flush=True)
    sys.exit(3)
if pieces >= 5 and stage != "preview":
    print(json.dumps({'progress': -1, 'detail':
        "Selection eclatee en %d morceaux pour « %s » : la description designe "
        "probablement plusieurs objets ou rien de precis. Visez un seul element "
        "(ex. « le cadre a gauche »)." % (pieces, target)}), flush=True)
    sys.exit(3)
if coverage > 45.0 and stage != "preview":
    print(json.dumps({'progress': -1, 'detail':
        "La zone « %s » couvre %.0f %% de l'image : c'est probablement une mauvaise "
        "selection. Reformulez la description." % (target, coverage)}), flush=True)
    sys.exit(3)

alpha = (mask.astype(np.float32) / 255.0)[:, :, None]
base = np.array(image).astype(np.float32)


def region_box(m, side=None):
    """Square crop around the mask, with context, clamped to the image."""
    ys, xs = np.where(m > 127)
    x0, x1, y0, y1 = int(xs.min()), int(xs.max()), int(ys.min()), int(ys.max())
    pad = int(max(x1 - x0, y1 - y0) * 0.18)
    x0, y0 = max(0, x0 - pad), max(0, y0 - pad)
    x1, y1 = min(W, x1 + pad), min(H, y1 + pad)
    s = side or min(max(x1 - x0, y1 - y0), W, H)
    cx, cy = (x0 + x1) // 2, (y0 + y1) // 2
    bx = max(0, min(W - s, cx - s // 2))
    by = max(0, min(H - s, cy - s // 2))
    return bx, by, bx + s, by + s

if stage == "recolour":
    report(60, "recoloration")
    bgr = cv2.cvtColor(np.array(image), cv2.COLOR_RGB2BGR)
    lab = cv2.cvtColor(bgr, cv2.COLOR_BGR2LAB).astype(np.float32)
    L, A, B = lab[:, :, 0], lab[:, :, 1], lab[:, :, 2]

    sel = mask > 127
    lo, hi = np.percentile(L[sel], 2), np.percentile(L[sel], 98)
    span = max(float(hi - lo), 1.0)

    swatch = np.uint8([[[target_rgb[2], target_rgb[1], target_rgb[0]]]])
    tl, ta, tb = cv2.cvtColor(swatch, cv2.COLOR_BGR2LAB)[0, 0].astype(np.float32)
    # Remap the region's own luminance onto the target's. Without this a
    # blown-out white shirt stays white whatever chroma it is given.
    l_new = np.clip(tl + ((L - lo) / span - 0.5) * span * 0.62, 4, 250)

    out_lab = lab.copy()
    a2 = alpha[:, :, 0]
    out_lab[:, :, 0] = L * (1 - a2) + l_new * a2
    out_lab[:, :, 1] = A * (1 - a2) + ta * a2
    out_lab[:, :, 2] = B * (1 - a2) + tb * a2
    result = cv2.cvtColor(np.clip(out_lab, 0, 255).astype(np.uint8), cv2.COLOR_LAB2BGR)
    result = cv2.cvtColor(result, cv2.COLOR_BGR2RGB)
    Image.fromarray(result).save(out_path, quality=94)

    got = result[sel].mean(axis=0)
    print(json.dumps({'progress': 95,
                      'detail': "couleur obtenue rgb(%d,%d,%d)" % tuple(got.round())}),
          flush=True)
elif stage == "preview":
    # Tint the selection instead of editing it: seeing the region is the only
    # way to know the description picked the right thing.
    report(70, "apercu de la selection")
    tint = base.copy()
    colour = np.array(target_rgb, dtype=np.float32)
    tint = tint * (1 - alpha * 0.55) + colour * (alpha * 0.55)
    Image.fromarray(tint.clip(0, 255).astype(np.uint8)).save(out_path, quality=90)
elif stage == "crop":
    # Cut a square around the region and hand *that* to the engine instead of
    # the whole frame. A 1280x720 photo squeezed into 768 px leaves a shirt
    # barely 200 px wide; cropping first spends the model's entire resolution
    # budget on the part being redrawn, and keeps VRAM flat regardless of how
    # large the source image is.
    bx0, by0, bx1, by1 = region_box(mask)
    side = 1024 if min(bx1 - bx0, by1 - by0) >= 640 else 768
    image.crop((bx0, by0, bx1, by1)).resize((side, side), Image.LANCZOS).save(crop_path)
    Image.fromarray(mask).crop((bx0, by0, bx1, by1)) \
        .resize((side, side), Image.LANCZOS).save(crop_mask_path)
    print(json.dumps({'crop': [bx0, by0, bx1, by1], 'side': side}), flush=True)
    report(35, "zone isolee a %d px" % side)
else:
    report(85, "assemblage")
    bx0, by0, bx1, by1 = region_box(mask)
    gen = Image.open(generated_path).convert('RGB')
    canvas = Image.fromarray(base.astype(np.uint8)).copy()
    canvas.paste(gen.resize((bx1 - bx0, by1 - by0), Image.LANCZOS), (bx0, by0))
    # Blend through the mask: the engine's own masking still nudges pixels
    # outside the region, and "only this changed" must be literally true.
    blended = (np.array(canvas).astype(np.float32) * alpha + base * (1 - alpha))
    Image.fromarray(blended.clip(0, 255).astype(np.uint8)).save(out_path, quality=94)

report(100, "termine")
"#;

} // verus!
