//! The viewer page served to phones and tablets, and the decisions made on
//! viewer and controller requests.

use vstd::prelude::*;
use crate::network::MEDIAMTX_WEBRTC_PORT;
use crate::stream::{StreamMode, webrtc_mode};
use crate::text::{
    chars_of, contains_seq, decimal, decimal_string, is_digit, lemma_decimal_digits,
    lemma_replace_leaves_none, no_common_char, replace, replace_all, string_of,
};

verus! {

pub const MJPEG_VIEWER_HTML: &'static str = r#"<!DOCTYPE html>
<html><head>
<title>GBA{slot}</title>
<meta name="viewport" content="width=device-width,initial-scale=1,user-scalable=no">
<meta name="apple-mobile-web-app-capable" content="yes">
<style>
*{margin:0;padding:0;box-sizing:border-box}
html,body{width:100%;height:100%;background:#000;overflow:hidden}
.wrap{position:fixed;inset:0;display:flex;align-items:center;justify-content:center}
img{
  width:100%;
  height:100%;
  object-fit:contain;
  image-rendering:pixelated;
  transition:transform .15s ease;
}
body.rot img{
  width:100vh;
  height:100vw;
  transform:rotate(90deg);
}
.rot-btn{
  position:fixed;
  bottom:14px;
  right:14px;
  width:44px;
  height:44px;
  border:none;
  border-radius:50%;
  background:rgba(255,255,255,.18);
  color:#fff;
  font-size:22px;
  cursor:pointer;
  display:flex;
  align-items:center;
  justify-content:center;
  -webkit-tap-highlight-color:transparent;
  z-index:10;
  backdrop-filter:blur(4px);
}
.rot-btn:active{background:rgba(255,255,255,.35)}
{gp_css}
</style>
</head><body>
<div class="wrap"><img src="/stream/{slot}" alt="GBA{slot}"></div>
<button class="rot-btn" onclick="document.body.classList.toggle('rot')" title="Ruota">⟳</button>
{gp_html}
<script>{gp_js}</script>
</body></html>"#;

pub const WEBRTC_VIEWER_HTML: &'static str = r#"<!DOCTYPE html>
<html><head>
<title>GBA{slot}</title>
<meta name="viewport" content="width=device-width,initial-scale=1,user-scalable=no">
<style>
*{margin:0;padding:0;box-sizing:border-box}
html,body{width:100%;height:100%;background:#000;overflow:hidden}
iframe{width:100%;height:100%;border:none;z-index:1;position:relative}
{gp_css}
</style>
</head><body>
<iframe id="player"></iframe>
{gp_html}
<script>
document.getElementById('player').src = 'http://' + window.location.hostname + ':{webrtc_port}/slot{slot}';
</script>
<script>{gp_js}</script>
</body></html>"#;

pub const GAMEPAD_CSS: &'static str = r#"
.gp-toast{position:fixed;top:12px;right:12px;display:flex;align-items:center;gap:8px;z-index:99999;padding:10px 16px;border-radius:4px;background:rgba(0,120,215,0.92);color:#fff;font:600 15px system-ui,sans-serif;box-shadow:0 3px 10px rgba(0,0,0,0.4);backdrop-filter:blur(6px);transform:translateX(120%) translateZ(0);opacity:0;transition:transform .3s ease,opacity .3s ease;will-change:transform}
.gp-toast.visible{transform:translateX(0) translateZ(0);opacity:1}
.gp-toast.connected{background:rgba(60,200,90,0.95)}
.gp-close{width:30px;height:30px;padding:0;display:flex;align-items:center;justify-content:center;border:none;border-radius:4px;background:rgba(255,255,255,0.2);color:#ff0000;font-size:20px;line-height:1;cursor:pointer;-webkit-tap-highlight-color:transparent;font-weight:700}
.gp-close:active{background:rgba(255,255,255,0.35)}
"#;

pub const GAMEPAD_HTML: &'static str =
    r#"<div id="gp-toast" class="gp-toast"><span id="gp-text">🎮 Connect Controller</span><button class="gp-close" onclick="dismissGamepad()" title="Close">×</button></div>"#;

// Tiny client: open WS once user taps the button, find a gamepad (browsers
// only expose one after a button press on the page), poll at rAF rate, send
// only when the serialized state changes. WS URL uses location.host so the
// port matches whatever served the viewer (8080 today).
pub const GAMEPAD_JS: &'static str = r#"
const SLOT={slot};
let ws=null,gpIndex=null;
let prevBuf=null;
let gpHideTimer=null;
let gpCycleTimer=null;
let gpDismissed=false;
let pollTimer=null;
let detectTimer=null;
const cycleTexts=['🎮 Connect Controller','🎮 Press any button'];
let cycleIdx=0;
function getToast(){ return document.getElementById('gp-toast'); }
function getText(){ return document.getElementById('gp-text'); }
function setToastText(text){
  const span=getText();
  if(span) span.textContent=text;
}
function showToast(autoHide){
  if(gpDismissed) return;
  const t=getToast();
  if(!t) return;
  t.classList.add('visible');
  if(gpHideTimer){ clearTimeout(gpHideTimer); gpHideTimer=null; }
  if(autoHide){ gpHideTimer=setTimeout(()=>{ hideToast(); },3000); }
}
function hideToast(){
  const t=getToast();
  if(t){ t.classList.remove('visible'); t.classList.remove('connected'); }
  if(gpHideTimer){ clearTimeout(gpHideTimer); gpHideTimer=null; }
}
function startCycle(){
  if(gpDismissed) return;
  if(gpCycleTimer){ clearTimeout(gpCycleTimer); }
  setToastText(cycleTexts[cycleIdx]);
  cycleIdx=(cycleIdx+1)%cycleTexts.length;
  showToast(false);
  gpCycleTimer=setTimeout(startCycle,3000);
}
function stopCycle(){ if(gpCycleTimer){ clearTimeout(gpCycleTimer); gpCycleTimer=null; } }
function stopTimers(){
  if(pollTimer){ clearTimeout(pollTimer); pollTimer=null; }
  if(detectTimer){ clearTimeout(detectTimer); detectTimer=null; }
}
function dismissGamepad(){ gpDismissed=true; if(ws){ try{ws.close();}catch(e){} ws=null; } gpIndex=null; prevBuf=null; stopTimers(); stopCycle(); hideToast(); }
function isGpConnected(){ return ws&&ws.readyState===1&&gpIndex!==null; }
function refresh(){
  if(gpDismissed) return;
  const t=getToast();
  const open=ws&&ws.readyState===1;
  if(gpIndex!==null&&open){ stopCycle(); if(t) t.classList.add('connected'); setToastText('🎮 Connected'); showToast(true); }
  else if(open){ stopCycle(); if(t) t.classList.remove('connected'); setToastText('🎮 Press any button'); showToast(false); }
  else { if(t) t.classList.remove('connected'); startCycle(); }
}
function connectGamepad(){
  if(gpDismissed) return;
  if(ws&&(ws.readyState===0||ws.readyState===1))return;
  try{ws=new WebSocket('ws://'+location.host+'/ws/'+SLOT);}
  catch(e){return;}
  ws.onopen=()=>{refresh();stopTimers();poll();};
  ws.onclose=()=>{ws=null;gpIndex=null;prevBuf=null;refresh();autoDetectGamepad();};
  ws.onerror=()=>{try{ws&&ws.close();}catch(e){}};
}
window.addEventListener('gamepadconnected',e=>{
  gpIndex=e.gamepad.index;
  if(!ws||ws.readyState!==1) connectGamepad();
  refresh();
});
window.addEventListener('gamepaddisconnected',e=>{
  if(e.gamepad.index===gpIndex){gpIndex=null;prevBuf=null;refresh();}
});
function bufEqual(a,b){ if(!a||!b||a.length!==b.length) return false; for(let i=0;i<a.length;i++) if(a[i]!==b[i]) return false; return true; }
function poll(){
  if(!ws||ws.readyState!==1)return;
  if(gpIndex===null){
    const pads=navigator.getGamepads();
    for(let i=0;i<pads.length;i++){if(pads[i]){gpIndex=i;refresh();break;}}
  }
  const gp=gpIndex!==null?navigator.getGamepads()[gpIndex]:null;
  if(gp){
    const buf=new Uint8Array(32);
    const dv=new DataView(buf.buffer);
    for(let i=0;i<4;i++){ dv.setFloat32(i*4,gp.axes[i]||0,true); }
    for(let i=0;i<16;i++){ buf[16+i]=gp.buttons[i]&&gp.buttons[i].pressed?1:0; }
    if(!bufEqual(buf,prevBuf)){ ws.send(buf); prevBuf=buf; }
  }
  pollTimer=setTimeout(poll,8);
}
function autoDetectGamepad(){
  if(gpDismissed) return;
  if(!ws||ws.readyState!==1){
    const pads=navigator.getGamepads();
    for(let i=0;i<pads.length;i++){
      if(pads[i]){ gpIndex=i; connectGamepad(); break; }
    }
  }
  detectTimer=setTimeout(autoDetectGamepad,8);
}
autoDetectGamepad();
startCycle();
"#;

pub const VIRTUAL_CSS: &'static str =
    r#"
#virtual-controller {
  position: fixed;
  left: 20px;
  right: 20px;
  bottom: 20px;
  height: 220px;
  display: flex;
  flex-direction: column;
  align-items: center;
  justify-content: flex-end;
  pointer-events: none;
  z-index: 10000;
}

#virtual-controller .vc-btn {
  pointer-events: auto;
  touch-action: none;
  user-select: none;
  -webkit-user-select: none;
  -webkit-touch-callout: none;
  font-family: sans-serif;
  font-weight: 700;
  border: 2px solid rgba(255,255,255,0.45);
  background: rgba(30,30,30,0.75);
  color: white;
  box-shadow: 0 2px 6px rgba(0,0,0,0.4);
}

#virtual-controller .vc-btn:active,
#virtual-controller .vc-btn.pressed {
  background: rgba(100,100,100,0.9);
  transform: scale(0.94);
}

#virtual-controller .vc-shoulders {
  width: 100%;
  display: flex;
  justify-content: space-between;
  margin-bottom: 12px;
}

#virtual-controller .vc-l,
#virtual-controller .vc-r {
  width: 64px;
  height: 38px;
  border-radius: 10px;
}

#virtual-controller .vc-main {
  width: 100%;
  max-width: 500px;
  display: flex;
  align-items: center;
  justify-content: space-between;
}

#virtual-controller .vc-dpad {
  position: relative;
  width: 120px;
  height: 120px;
}

#virtual-controller .vc-dpad .vc-btn {
  position: absolute;
  width: 40px;
  height: 40px;
  border-radius: 6px;
}

#virtual-controller .vc-up {
  left: 40px;
  top: 0;
}

#virtual-controller .vc-down {
  left: 40px;
  bottom: 0;
}

#virtual-controller .vc-left {
  left: 0;
  top: 40px;
}

#virtual-controller .vc-right {
  right: 0;
  top: 40px;
}

#virtual-controller .vc-center {
  display: flex;
  gap: 8px;
  align-items: center;
}

#virtual-controller .vc-select,
#virtual-controller .vc-start {
  width: 62px;
  height: 28px;
  border-radius: 14px;
  font-size: 9px;
}

#virtual-controller .vc-face {
  position: relative;
  width: 120px;
  height: 120px;
}

#virtual-controller .vc-face .vc-btn {
  position: absolute;
  width: 52px;
  height: 52px;
  border-radius: 50%;
  font-size: 18px;
}

#virtual-controller .vc-a {
  right: 0;
  top: 18px;
}

#virtual-controller .vc-b {
  left: 0;
  bottom: 18px;
}
"#;

pub const VIRTUAL_HTML: &'static str =
    r#"
<div id="virtual-controller">
  <div class="vc-shoulders">
    <button class="vc-btn vc-l" data-button="l">L</button>
    <button class="vc-btn vc-r" data-button="r">R</button>
  </div>

  <div class="vc-main">
    <div class="vc-dpad">
      <button class="vc-btn vc-up" data-button="up">▲</button>
      <button class="vc-btn vc-left" data-button="left">◀</button>
      <button class="vc-btn vc-right" data-button="right">▶</button>
      <button class="vc-btn vc-down" data-button="down">▼</button>
    </div>

    <div class="vc-center">
      <button class="vc-btn vc-select" data-button="select">SELECT</button>
      <button class="vc-btn vc-start" data-button="start">START</button>
    </div>

    <div class="vc-face">
      <button class="vc-btn vc-b" data-button="b">B</button>
      <button class="vc-btn vc-a" data-button="a">A</button>
    </div>
  </div>
</div>
"#;

pub const VIRTUAL_JS: &'static str =
    r#"
const SLOT={slot};

let ws=null;
let prevBuf=null;

const buttonIndices={
  a:      0,
  b:      1,
  l:      4,
  r:      5,
  select: 8,
  start:  9,
  up:     12,
  down:   13,
  left:   14,
  right:  15
};

function connectVirtualController(){
  if(ws&&(ws.readyState===0||ws.readyState===1)) return;

  try{
    ws=new WebSocket('ws://'+location.host+'/ws/'+SLOT);
  }catch(e){
    ws=null;
    return;
  }

  ws.onopen=()=>{
    prevBuf=null;
    sendState();
  };

  ws.onclose=()=>{
    ws=null;
    prevBuf=null;
  };

  ws.onerror=()=>{
    try{
      if(ws) ws.close();
    }catch(e){}
  };
}

function bufEqual(a,b){
  if(!a||!b||a.length!==b.length) return false;
  for(let i=0;i<a.length;i++){
    if(a[i]!==b[i]) return false;
  }
  return true;
}

function sendState(){
  if(!ws||ws.readyState!==1) return;

  const buf=new Uint8Array(32);

  // Axes remain zero for the virtual controller.
  // Buttons occupy bytes 16..31, matching Web Gamepad API indices.
  
  if(!bufEqual(buf,prevBuf)){
    ws.send(buf);
    prevBuf=buf;
  }
}

function setButton(name,pressed){
  if(!ws||ws.readyState!==1) return;

  const index=buttonIndices[name];
  if(index===undefined) return;

  // Web Gamepad buttons begin at byte 16.
  const buf=prevBuf
    ? new Uint8Array(prevBuf)
    : new Uint8Array(32);

  buf[16+index]=pressed?1:0;

  if(!bufEqual(buf,prevBuf)){
    ws.send(buf);
    prevBuf=buf;
  }
}

function bindButton(button){
  const name=button.dataset.button;
  if(!name) return;

  const press=e=>{
    e.preventDefault();

    if(!ws||ws.readyState!==1){
      connectVirtualController();
      return;
    }

    button.classList.add('pressed');
    setButton(name,true);
  };

  const release=e=>{
    e.preventDefault();

    button.classList.remove('pressed');

    if(ws&&ws.readyState===1){
      setButton(name,false);
    }
  };

  button.addEventListener('pointerdown',press);
  button.addEventListener('pointerup',release);
  button.addEventListener('pointercancel',release);
  button.addEventListener('pointerleave',release);

  button.addEventListener('contextmenu',e=>e.preventDefault());
}

document
  .querySelectorAll('#virtual-controller [data-button]')
  .forEach(bindButton);

connectVirtualController();
"#;

/// The page template for a slot: the WebRTC player frame when its stream
/// goes through WebRTC, the MJPEG image page otherwise (also when no stream
/// runs yet).
pub open spec fn page_template(mode: Option<StreamMode>) -> Seq<char> {
    match mode {
        Some(m) => if webrtc_mode(m) { WEBRTC_VIEWER_HTML@ } else { MJPEG_VIEWER_HTML@ },
        None => MJPEG_VIEWER_HTML@,
    }
}

/// The controller fragments (style, markup, script) for a controller code:
/// 1 a physical gamepad, 2 on-screen buttons, anything else none.
pub open spec fn controller_fragments(rc: u8) -> (Seq<char>, Seq<char>, Seq<char>) {
    if rc == 1 {
        (GAMEPAD_CSS@, GAMEPAD_HTML@, GAMEPAD_JS@)
    } else if rc == 2 {
        (VIRTUAL_CSS@, VIRTUAL_HTML@, VIRTUAL_JS@)
    } else {
        (Seq::empty(), Seq::empty(), Seq::empty())
    }
}

/// A template filled in: the controller fragments put in first (so the
/// `{slot}` they hold is filled too), then the slot number and the WebRTC
/// port.
pub open spec fn fill_template(template: Seq<char>, slot: u8, rc: u8) -> Seq<char> {
    let (css, html, js) = controller_fragments(rc);
    let a = replace_all(template, "{gp_css}"@, css);
    let b = replace_all(a, "{gp_html}"@, html);
    let c = replace_all(b, "{gp_js}"@, js);
    let d = replace_all(c, "{slot}"@, decimal(slot as nat));
    replace_all(d, "{webrtc_port}"@, decimal(MEDIAMTX_WEBRTC_PORT as nat))
}

/// The viewer page: the slot's template, filled in.
pub open spec fn viewer_page_text(slot: u8, mode: Option<StreamMode>, rc: u8) -> Seq<char> {
    fill_template(page_template(mode), slot, rc)
}

/// No character of the `{slot}` and `{webrtc_port}` placeholders is a digit.
proof fn lemma_number_placeholders_have_no_digit()
    ensures
        forall|j: int| 0 <= j < "{slot}"@.len() ==> !is_digit(#[trigger] "{slot}"@[j]),
        forall|j: int| 0 <= j < "{webrtc_port}"@.len() ==> !is_digit(#[trigger] "{webrtc_port}"@[j]),
{
    reveal_strlit("{slot}");
    reveal_strlit("{webrtc_port}");
    assert forall|j: int| 0 <= j < "{slot}"@.len() implies !is_digit(#[trigger] "{slot}"@[j]) by {
        if j == 0 {} else if j == 1 {} else if j == 2 {} else if j == 3 {} else if j == 4 {} else {}
    }
    assert forall|j: int| 0 <= j < "{webrtc_port}"@.len() implies !is_digit(#[trigger] "{webrtc_port}"@[j]) by {
        if j == 0 {} else if j == 1 {} else if j == 2 {} else if j == 3 {} else if j == 4 {}
        else if j == 5 {} else if j == 6 {} else if j == 7 {} else if j == 8 {} else if j == 9 {}
        else if j == 10 {} else if j == 11 {} else {}
    }
}

/// The slot number and the WebRTC port are always filled in: whatever the
/// template and the controller fragments, the page holds no `{slot}` and
/// no `{webrtc_port}` placeholder.
pub proof fn lemma_viewer_page_fills_numbers(slot: u8, mode: Option<StreamMode>, rc: u8)
    ensures
        !contains_seq(viewer_page_text(slot, mode, rc), "{slot}"@),
        !contains_seq(viewer_page_text(slot, mode, rc), "{webrtc_port}"@),
{
    let (css, html, js) = controller_fragments(rc);
    let a = replace_all(page_template(mode), "{gp_css}"@, css);
    let b = replace_all(a, "{gp_html}"@, html);
    let c = replace_all(b, "{gp_js}"@, js);
    let slot_pat = "{slot}"@;
    let port_pat = "{webrtc_port}"@;
    let slot_text = decimal(slot as nat);
    let port_text = decimal(MEDIAMTX_WEBRTC_PORT as nat);
    let d = replace_all(c, slot_pat, slot_text);
    reveal_strlit("{slot}");
    reveal_strlit("{webrtc_port}");
    lemma_number_placeholders_have_no_digit();
    lemma_decimal_digits(slot as nat);
    lemma_decimal_digits(MEDIAMTX_WEBRTC_PORT as nat);
    assert(no_common_char(slot_text, slot_pat)) by {
        assert forall|i: int, j: int| 0 <= i < slot_text.len() && 0 <= j < slot_pat.len() implies
            slot_text[i] != slot_pat[j] by {
            assert(is_digit(slot_text[i]));
            assert(!is_digit(slot_pat[j]));
        }
    }
    assert(no_common_char(port_text, slot_pat)) by {
        assert forall|i: int, j: int| 0 <= i < port_text.len() && 0 <= j < slot_pat.len() implies
            port_text[i] != slot_pat[j] by {
            assert(is_digit(port_text[i]));
            assert(!is_digit(slot_pat[j]));
        }
    }
    assert(no_common_char(port_text, port_pat)) by {
        assert forall|i: int, j: int| 0 <= i < port_text.len() && 0 <= j < port_pat.len() implies
            port_text[i] != port_pat[j] by {
            assert(is_digit(port_text[i]));
            assert(!is_digit(port_pat[j]));
        }
    }
    lemma_replace_leaves_none(c, slot_pat, slot_text, slot_pat);
    lemma_replace_leaves_none(d, port_pat, port_text, slot_pat);
    lemma_replace_leaves_none(d, port_pat, port_text, port_pat);
}

fn nonempty_pattern(p: &str) -> (v: Vec<char>)
    requires
        p@.len() > 0,
    ensures
        v@ == p@,
{
    chars_of(p)
}

/// Renders the viewer page of a slot, given the mode of its stream (if one
/// runs) and the controller code.
pub fn viewer_page(slot: u8, mode: Option<StreamMode>, rc: u8) -> (page: String)
    ensures
        page@ == viewer_page_text(slot, mode, rc),
{
    let template = match mode {
        Some(m) => if m.is_webrtc() { WEBRTC_VIEWER_HTML } else { MJPEG_VIEWER_HTML },
        None => MJPEG_VIEWER_HTML,
    };
    let (css, html, js) = if rc == 1 {
        (GAMEPAD_CSS, GAMEPAD_HTML, GAMEPAD_JS)
    } else if rc == 2 {
        (VIRTUAL_CSS, VIRTUAL_HTML, VIRTUAL_JS)
    } else {
        ("", "", "")
    };
    proof {
        reveal_strlit("{gp_css}");
        reveal_strlit("{gp_html}");
        reveal_strlit("{gp_js}");
        reveal_strlit("{slot}");
        reveal_strlit("{webrtc_port}");
        reveal_strlit("");
        assert(""@ =~= Seq::<char>::empty());
        assert(template@ == page_template(mode));
        assert((css@, html@, js@) == controller_fragments(rc));
    }
    let t = chars_of(template);
    let a = replace(t.as_slice(), nonempty_pattern("{gp_css}").as_slice(), chars_of(css).as_slice());
    let b = replace(a.as_slice(), nonempty_pattern("{gp_html}").as_slice(), chars_of(html).as_slice());
    let c = replace(b.as_slice(), nonempty_pattern("{gp_js}").as_slice(), chars_of(js).as_slice());
    let d = replace(c.as_slice(), nonempty_pattern("{slot}").as_slice(), chars_of(decimal_string(slot as u64).as_str()).as_slice());
    let e = replace(
        d.as_slice(),
        nonempty_pattern("{webrtc_port}").as_slice(),
        chars_of(decimal_string(MEDIAMTX_WEBRTC_PORT as u64).as_str()).as_slice(),
    );
    string_of(e.as_slice())
}

/// Answer to a request for a slot's MJPEG feed, given the mode of the
/// slot's stream: refused (404) when no stream runs or the stream only goes
/// through WebRTC.
pub open spec fn feed_answer(mode: Option<StreamMode>) -> Result<(), Seq<char>> {
    match mode {
        None => Err("No active stream"@),
        Some(m) => if webrtc_mode(m) { Err("Stream is WebRTC-only"@) } else { Ok(()) },
    }
}

/// Decides a request for a slot's MJPEG feed.
pub fn mjpeg_feed_request(mode: Option<StreamMode>) -> (r: Result<(), &'static str>)
    ensures
        r matches Err(e) ==> feed_answer(mode) == Err::<(), Seq<char>>(e@),
        r is Ok <==> feed_answer(mode) is Ok,
{
    match mode {
        None => Err("No active stream"),
        Some(m) => if m.is_webrtc() { Err("Stream is WebRTC-only") } else { Ok(()) },
    }
}

/// The page follows the stream's transport: while a slot streams in any
/// WebRTC mode (plain, upscaled or VP9) its page is the WebRTC player,
/// exactly when the MJPEG feed of the slot is refused; when it streams
/// MJPEG, or nothing yet, its page is the MJPEG image page.
pub proof fn lemma_page_follows_transport(slot: u8, mode: Option<StreamMode>, rc: u8)
    ensures
        mode matches Some(m) && !(m is Mjpeg) ==> viewer_page_text(slot, mode, rc) == fill_template(
            WEBRTC_VIEWER_HTML@,
            slot,
            rc,
        ),
        mode is None || mode == Some(StreamMode::Mjpeg) ==> viewer_page_text(slot, mode, rc)
            == fill_template(MJPEG_VIEWER_HTML@, slot, rc),
        mode is Some && feed_answer(mode) is Err ==> viewer_page_text(slot, mode, rc) == fill_template(
            WEBRTC_VIEWER_HTML@,
            slot,
            rc,
        ),
        feed_answer(mode) is Ok ==> viewer_page_text(slot, mode, rc) == fill_template(
            MJPEG_VIEWER_HTML@,
            slot,
            rc,
        ),
{
}

/// Decides a controller connection for a slot: only slots 1 to 4 are
/// accepted (others get a 404 "Invalid slot").
pub fn controller_request(slot: u8) -> (r: Result<(), &'static str>)
    ensures
        r is Ok <==> 1 <= slot <= 4,
        r matches Err(e) ==> e@ == "Invalid slot"@,
{
    if slot < 1 || slot > 4 {
        Err("Invalid slot")
    } else {
        Ok(())
    }
}

} // verus!
