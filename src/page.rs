use vstd::prelude::*;

verus! {

/// The monitoring page that the transport serves at `/`. It polls `/telemetry`
/// and posts to `/arm`, `/disarm` and `/solenoid/<channel>/<state>`.
pub const MONITOR_PAGE: &'static str = r#"<!DOCTYPE html>
<html>
<head>
   <meta charset="utf-8">
   <title>Telemetry Control</title>
   <style>
      .solenoid-button {
         width: 100px;
         height: 40px;
         margin: 5px;
      }
      .on { background-color: green; color: white; }
      .off { background-color: red; color: white; }
   </style>
</head>
<body>
   <h1>Telemetry Control</h1>
   <div>
      <button id="armButton" onclick="sendArm()">Arm</button>
      <button id="disarmButton" onclick="sendDisarm()">Disarm</button>
   </div>
   <h2>Solenoids</h2>
   <div id="solenoids"></div>
   <h2>Raw Telemetry</h2>
   <pre id="telemetry"></pre>
   <script>
      const NUM_SOLENOIDS = 16;
      const solenoidContainer = document.getElementById('solenoids');
      // Dynamically create a button for each solenoid.
      for (let i = 0; i < NUM_SOLENOIDS; i++) {
         const btn = document.createElement('button');
         btn.id = 'solenoid' + (i+1);
         btn.className = 'solenoid-button off';
         btn.innerText = 'Solenoid ' + (i+1) + ': OFF';
         // When clicked, we read the current telemetry and then send a command
         // to toggle the state.
         btn.onclick = () => toggleSolenoid(i);
         solenoidContainer.appendChild(btn);
      }

      async function sendArm() {
         try {
             await fetch('/arm', { method: 'POST' });
         } catch(e) { console.error(e); }
      }
      async function sendDisarm() {
         try {
             await fetch('/disarm', { method: 'POST' });
         } catch(e) { console.error(e); }
      }
      async function toggleSolenoid(index) {
         try {
             const response = await fetch('/telemetry');
             const data = await response.json();
             // Toggle: if currently ON then turn it OFF and vice versa.
             const currentState = data.solenoids[index];
             const newState = currentState ? 0 : 1;
             const channel = index + 1;
             await fetch(`/solenoid/${channel}/${newState}`, { method: 'POST' });
         } catch (err) {
             console.error(err);
         }
      }

      async function fetchTelemetry() {
         try {
            const response = await fetch('/telemetry');
            const data = await response.json();
            document.getElementById('telemetry').innerText = JSON.stringify(data, null, 2);
            // Enable/disable arm/disarm buttons based on telemetry state.
            if (data.armed) {
                document.getElementById('armButton').disabled = true;
                document.getElementById('disarmButton').disabled = false;
            } else {
                document.getElementById('armButton').disabled = false;
                document.getElementById('disarmButton').disabled = true;
            }
            // Update each solenoid button to reflect its actual state.
            for (let i = 0; i < NUM_SOLENOIDS; i++) {
                const btn = document.getElementById('solenoid' + (i+1));
                if (data.solenoids[i]) {
                   btn.classList.add('on');
                   btn.classList.remove('off');
                   btn.innerText = `Solenoid ${i+1}: ON`;
                } else {
                   btn.classList.add('off');
                   btn.classList.remove('on');
                   btn.innerText = `Solenoid ${i+1}: OFF`;
                }
            }
         } catch (err) {
            console.error(err);
         }
      }

      // Poll telemetry frequently.
      setInterval(fetchTelemetry, 100);
      fetchTelemetry();
   </script>
</body>
</html>
"#;

/// The monitoring page.
pub fn index() -> (r: &'static str)
    ensures
        r@ == MONITOR_PAGE@,
{
    MONITOR_PAGE
}

} // verus!
