use vstd::prelude::*;

use crate::decimal::{decimal, decimal_string};

verus! {

/// Address the capture mirror listens on when it is simply switched on.
pub const DEFAULT_BIND_ADDRESS: &'static str = "0.0.0.0:7878";

pub const PAGE_HEAD: &'static str = r#"<!doctype html>
<html>
<head>
<meta charset="utf-8">
<meta name="viewport" content="width=device-width,initial-scale=1">
<style>
html,body{margin:0;width:100%;height:100%;overflow:hidden;background:#000}
body{display:flex;align-items:center;justify-content:center}
#stage{display:flex;align-items:center;justify-content:center;width:100vw;height:100vh;background:#000}
canvas{display:block;image-rendering:pixelated;image-rendering:crisp-edges;background:#000}
#status{position:fixed;left:8px;top:8px;padding:5px 7px;background:#250018;color:#fff;font:12px monospace;z-index:2}
</style>
</head>
<body>
<div id="stage"><canvas id="game" width=""#;

pub const PAGE_CANVAS_HEIGHT: &'static str = r#"" height=""#;

pub const PAGE_SCRIPT_WIDTH: &'static str = r#""></canvas></div>
<div id="status">GPE OBS MIRROR: CONNECTING</div>
<script>
const width="#;

pub const PAGE_SCRIPT_HEIGHT: &'static str = r#", height="#;

pub const PAGE_TAIL: &'static str = r#";
const frameSize=width*height*4;
const canvas=document.getElementById('game');
const ctx=canvas.getContext('2d',{alpha:false});
const status=document.getElementById('status');

function fitCanvas(){
  const fit=Math.min(window.innerWidth/width,window.innerHeight/height);
  const scale=fit>=1?Math.max(1,Math.floor(fit)):fit;
  canvas.style.width=(width*scale)+'px';
  canvas.style.height=(height*scale)+'px';
}

function showStatus(message){
  status.textContent=message;
  status.style.display='block';
}

function hideStatus(){
  status.style.display='none';
}

function drawFrame(bytes){
  ctx.putImageData(new ImageData(new Uint8ClampedArray(bytes),width,height),0,0);
  hideStatus();
}

async function streamFrames(){
  showStatus('GPE OBS MIRROR: CONNECTING');
  try {
    const response=await fetch('/stream.rgba',{cache:'no-store'});
    if(!response.ok||!response.body) throw new Error('stream unavailable');
    const reader=response.body.getReader();
    let pending=new Uint8Array(0);

    for(;;){
      const result=await reader.read();
      if(result.done) throw new Error('stream closed');

      const merged=new Uint8Array(pending.length+result.value.length);
      merged.set(pending,0);
      merged.set(result.value,pending.length);

      let offset=0;
      while(merged.length-offset>=frameSize){
        drawFrame(merged.slice(offset,offset+frameSize));
        offset+=frameSize;
      }
      pending=merged.slice(offset);
    }
  } catch (_) {
    showStatus('GPE OBS MIRROR: RECONNECTING');
    window.setTimeout(streamFrames,500);
  }
}

window.addEventListener('resize',fitCanvas);
fitCanvas();
streamFrames();
</script>
</body>
</html>
"#;

/// The mirror page for a `width` x `height` framebuffer: the page template with the
/// canvas size and the script's frame size filled in, in decimal.
pub open spec fn mirror_page_text(width: nat, height: nat) -> Seq<char> {
    PAGE_HEAD@ + decimal(width) + PAGE_CANVAS_HEIGHT@ + decimal(height) + PAGE_SCRIPT_WIDTH@
        + decimal(width) + PAGE_SCRIPT_HEIGHT@ + decimal(height) + PAGE_TAIL@
}

/// The HTML page that shows the mirrored framebuffer in a browser.
pub fn mirror_page(width: u32, height: u32) -> (page: String)
    ensures
        page@ == mirror_page_text(width as nat, height as nat),
{
    let width_text = decimal_string(width as u64);
    let height_text = decimal_string(height as u64);
    let mut page = String::from_str(PAGE_HEAD);
    page.append(width_text.as_str());
    page.append(PAGE_CANVAS_HEIGHT);
    page.append(height_text.as_str());
    page.append(PAGE_SCRIPT_WIDTH);
    page.append(width_text.as_str());
    page.append(PAGE_SCRIPT_HEIGHT);
    page.append(height_text.as_str());
    page.append(PAGE_TAIL);
    page
}

} // verus!
